use vstd::prelude::*;

use crate::fs_guard::FsGuard;
use crate::path::within_some;
use crate::text::{
    append_chars, chars_of, lemma_split_concat, lemma_split_single, split_on, contains_chars, contains_text, decimal, decimal_chars, lines,
    sorted_texts, string_of, text_lines, texts, texts_sorted, trim, trimmed,
};
use crate::tools::{ToolError, ToolOutput};

verus! {

/// One search hit: `path:number: line`, the line trimmed.
pub open spec fn hit_line(path: Seq<char>, number: nat, line: Seq<char>) -> Seq<char> {
    path + ":"@ + decimal(number) + ": "@ + trim(line)
}

/// The hits for the first `ls.len()` lines of a file: each line that
/// contains `pattern`, numbered from 1.
pub open spec fn hits(path: Seq<char>, ls: Seq<Seq<char>>, pattern: Seq<char>) -> Seq<Seq<char>>
    decreases ls.len(),
{
    if ls.len() == 0 {
        seq![]
    } else if contains_text(ls.last(), pattern) {
        hits(path, ls.drop_last(), pattern).push(hit_line(path, ls.len(), ls.last()))
    } else {
        hits(path, ls.drop_last(), pattern)
    }
}

/// `parts` joined by newlines.
pub open spec fn join_lines(parts: Seq<Seq<char>>) -> Seq<char>
    decreases parts.len(),
{
    if parts.len() == 0 {
        seq![]
    } else if parts.len() == 1 {
        parts[0]
    } else {
        join_lines(parts.drop_last()) + "\n"@ + parts.last()
    }
}

/// The text a search hands back: its entries in `String` order, one per
/// line, or "no matches" when there are none.
pub open spec fn listing(entries: Seq<Seq<char>>, content: Seq<char>) -> bool {
    if entries.len() == 0 {
        content == "no matches"@
    } else {
        exists|sorted: Seq<Seq<char>>|
            #[trigger] texts_sorted(sorted) && sorted.to_multiset() == entries.to_multiset()
                && content == join_lines(sorted)
    }
}

proof fn lemma_join_lines_split(parts: Seq<Seq<char>>)
    requires
        parts.len() >= 1,
        forall|i: int| 0 <= i < parts.len() ==> !(#[trigger] parts[i]).contains('\n'),
    ensures
        split_on(join_lines(parts), '\n') == parts,
    decreases parts.len(),
{
    if parts.len() == 1 {
        lemma_split_single(parts[0], '\n');
        assert(seq![parts[0]] =~= parts);
    } else {
        let init = parts.drop_last();
        lemma_join_lines_split(init);
        reveal_strlit("\n");
        assert(join_lines(parts) =~= join_lines(init) + seq!['\n'] + parts.last());
        lemma_split_concat(join_lines(init), parts.last(), '\n');
        lemma_split_single(parts.last(), '\n');
        assert(init + seq![parts.last()] =~= parts);
    }
}

/// A search's answer has one line per entry, none dropped and none added:
/// for entries that hold no newline, cutting the answer at its newlines gives
/// the entries back, each as often as it was found, in `String` order.
pub proof fn listing_lists_every_entry(entries: Seq<Seq<char>>, content: Seq<char>)
    requires
        entries.len() > 0,
        listing(entries, content),
        forall|i: int| 0 <= i < entries.len() ==> !(#[trigger] entries[i]).contains('\n'),
    ensures
        split_on(content, '\n').to_multiset() == entries.to_multiset(),
        texts_sorted(split_on(content, '\n')),
{
    broadcast use vstd::seq_lib::group_to_multiset_ensures;

    let sorted = choose|sorted: Seq<Seq<char>>|
        #[trigger] texts_sorted(sorted) && sorted.to_multiset() == entries.to_multiset() && content
            == join_lines(sorted);
    assert(sorted.to_multiset().len() == entries.to_multiset().len());
    assert forall|i: int| 0 <= i < sorted.len() implies !(#[trigger] sorted[i]).contains('\n') by {
        assert(sorted.to_multiset().count(sorted[i]) > 0);
        assert(entries.contains(sorted[i]));
        let j = choose|j: int| 0 <= j < entries.len() && entries[j] == sorted[i];
        assert(!entries[j].contains('\n'));
    }
    lemma_join_lines_split(sorted);
}

/// The hits for one file: every line of `content` that contains `pattern`,
/// as `path:number: line` with the line trimmed and numbered from 1.
pub fn grep_file(path: &str, content: &str, pattern: &str) -> (r: Vec<String>)
    ensures
        r.deep_view() == hits(path@, lines(content@), pattern@),
{
    let cs = chars_of(content);
    let pat = chars_of(pattern);
    let path_chars = chars_of(path);
    let ls = text_lines(&cs);
    let ghost all = lines(content@);
    let mut r: Vec<String> = Vec::new();
    let mut k: usize = 0;
    assert(all.take(0) =~= Seq::<Seq<char>>::empty());
    while k < ls.len()
        invariant
            k <= ls.len(),
            texts(ls@) == all,
            cs@ == content@,
            pat@ == pattern@,
            path_chars@ == path@,
            r.deep_view() == hits(path@, all.take(k as int), pattern@),
        decreases ls.len() - k,
    {
        let ghost taken = all.take(k + 1);
        assert(taken.drop_last() =~= all.take(k as int));
        assert(taken.last() == ls[k as int]@);
        assert(taken.len() == k + 1);
        if contains_chars(&ls[k], &pat) {
            let mut line: Vec<char> = Vec::new();
            append_chars(&mut line, &path_chars);
            line.push(':');
            let number = decimal_chars(k + 1);
            append_chars(&mut line, &number);
            line.push(':');
            line.push(' ');
            let t = trimmed(&ls[k]);
            append_chars(&mut line, &t);
            proof {
                reveal_strlit(":");
                reveal_strlit(": ");
            }
            assert(line@ =~= hit_line(path@, (k + 1) as nat, ls[k as int]@));
            let ghost prev = r.deep_view();
            r.push(string_of(line.as_slice()));
            assert(r.deep_view() =~= prev.push(hit_line(path@, (k + 1) as nat, ls[k as int]@)));
        }
        k = k + 1;
    }
    assert(all.take(k as int) =~= all);
    r
}

/// Whether a file name matches the `find` tool's substring.
pub fn name_matches(file_name: &str, name: &str) -> (r: bool)
    ensures
        r == contains_text(file_name@, name@),
{
    let f = chars_of(file_name);
    let n = chars_of(name);
    contains_chars(&f, &n)
}

/// The text a search hands back for `entries`: sorted, one per line, or
/// "no matches" rather than an empty answer.
pub fn render_listing(entries: Vec<String>) -> (o: ToolOutput)
    ensures
        listing(entries.deep_view(), o.content@),
{
    if entries.len() == 0 {
        return ToolOutput { content: String::from_str("no matches") };
    }
    let ghost given = entries.deep_view();
    let sorted = sorted_texts(entries);
    proof {
        broadcast use vstd::seq_lib::group_to_multiset_ensures;

        assert(sorted.deep_view().to_multiset().len() == given.to_multiset().len());
        assert(sorted.deep_view().len() == given.len());
    }
    let mut out: Vec<char> = Vec::new();
    let mut k: usize = 0;
    while k < sorted.len()
        invariant
            k <= sorted.len(),
            sorted.len() > 0,
            k == 0 ==> out@.len() == 0,
            k > 0 ==> out@ == join_lines(sorted.deep_view().take(k as int)),
        decreases sorted.len() - k,
    {
        let piece = chars_of(sorted[k].as_str());
        let ghost taken = sorted.deep_view().take(k + 1);
        assert(taken.drop_last() =~= sorted.deep_view().take(k as int));
        assert(taken.last() == piece@);
        if k > 0 {
            out.push('\n');
        }
        append_chars(&mut out, &piece);
        proof {
            reveal_strlit("\n");
            assert(out@ =~= join_lines(taken));
        }
        k = k + 1;
    }
    assert(sorted.deep_view().take(k as int) =~= sorted.deep_view());
    let content = string_of(out.as_slice());
    assert(texts_sorted(sorted.deep_view()));
    ToolOutput { content }
}

/// A file the walk reached and the guard allowed: the only thing a search
/// may look inside or report.
pub struct Candidate {
    path: String,
}

impl Candidate {
    pub closed spec fn path_view(&self) -> Seq<char> {
        self.path@
    }

    /// The file's resolved location.
    pub fn path(&self) -> (r: &str)
        ensures
            r@ == self.path_view(),
    {
        self.path.as_str()
    }
}

/// A walk beneath a directory for the `find` and `grep` tools.
///
/// The walk decides; its caller reads directories and files. Every entry is
/// re-checked against the guard rather than trusted because its directory was
/// allowed: a symbolic link inside a readable directory can point anywhere.
pub struct SearchWalk {
    pending: Vec<String>,
    found: Vec<String>,
}

impl SearchWalk {
    /// The directories still to be read, the last one next.
    pub closed spec fn pending_view(&self) -> Seq<Seq<char>> {
        self.pending.deep_view()
    }

    /// What the search has found so far.
    pub closed spec fn found_view(&self) -> Seq<Seq<char>> {
        self.found.deep_view()
    }

    /// Starts a walk at `path`, given what resolving it gave. A root the
    /// guard refuses is reported as denied, with the guard's reason.
    pub fn start(guard: &FsGuard, path: &str, resolved: Result<String, String>) -> (r: Result<
        SearchWalk,
        ToolError,
    >)
        ensures
            match guard.check_read_spec(path@, resolved) {
                Ok(root) => r matches Ok(w) && w.pending_view() == seq![root] && w.found_view()
                    == Seq::<Seq<char>>::empty(),
                Err(t) => r matches Err(ToolError::Denied { subject, reason }) && subject@ == path@
                    && reason@ == t,
            },
    {
        match guard.check_read(path, resolved) {
            Ok(root) => {
                let mut pending: Vec<String> = Vec::new();
                pending.push(root);
                let w = SearchWalk { pending, found: Vec::new() };
                assert(w.pending.deep_view() =~= seq![root@]);
                assert(w.found.deep_view() =~= Seq::<Seq<char>>::empty());
                Ok(w)
            },
            Err(e) => Err(crate::tools::denied(path, &e)),
        }
    }

    /// The next directory to read, if any is left.
    pub fn next_dir(&mut self) -> (r: Option<String>)
        ensures
            old(self).pending_view().len() == 0 ==> r is None && final(self).pending_view()
                == old(self).pending_view(),
            old(self).pending_view().len() > 0 ==> (r matches Some(d) && d@ == old(
                self,
            ).pending_view().last() && final(self).pending_view() == old(
                self,
            ).pending_view().drop_last()),
            final(self).found_view() == old(self).found_view(),
    {
        let ghost before = self.pending.deep_view();
        let r = self.pending.pop();
        assert(self.pending.deep_view() =~= before.take(self.pending.len() as int));
        r
    }

    /// Visits one entry of a directory being read: `entry_path` as listed,
    /// what resolving it gave, and whether it is a directory. A refused entry
    /// is skipped; an allowed directory is queued; an allowed file comes back
    /// to be examined.
    pub fn visit(
        &mut self,
        guard: &FsGuard,
        entry_path: &str,
        resolved: Result<String, String>,
        is_dir: bool,
    ) -> (r: Option<Candidate>)
        ensures
            final(self).found_view() == old(self).found_view(),
            match guard.check_read_spec(entry_path@, resolved) {
                Ok(p) => if is_dir {
                    r is None && final(self).pending_view() == old(self).pending_view().push(p)
                } else {
                    r matches Some(c) && c.path_view() == p && final(self).pending_view() == old(
                        self,
                    ).pending_view()
                },
                Err(_) => r is None && final(self).pending_view() == old(self).pending_view(),
            },
            r matches Some(c) ==> within_some(c.path_view(), guard.readable_roots()),
    {
        match guard.check_read(entry_path, resolved) {
            Ok(p) => {
                if is_dir {
                    let ghost before = self.pending.deep_view();
                    self.pending.push(p);
                    assert(self.pending.deep_view() =~= before.push(p@));
                    None
                } else {
                    Some(Candidate { path: p })
                }
            },
            Err(_) => None,
        }
    }

    /// Reports `file` when its name contains `name`.
    pub fn record_name_match(&mut self, file: Candidate, file_name: &str, name: &str)
        ensures
            final(self).pending_view() == old(self).pending_view(),
            final(self).found_view() == if contains_text(file_name@, name@) {
                old(self).found_view().push(file.path_view())
            } else {
                old(self).found_view()
            },
    {
        if name_matches(file_name, name) {
            let ghost before = self.found.deep_view();
            self.found.push(file.path);
            assert(self.found.deep_view() =~= before.push(file.path_view()));
        }
    }

    /// Reports the lines of `file`, whose text is `content`, that contain
    /// `pattern`.
    pub fn record_lines(&mut self, file: Candidate, content: &str, pattern: &str)
        ensures
            final(self).pending_view() == old(self).pending_view(),
            final(self).found_view() == old(self).found_view() + hits(
                file.path_view(),
                lines(content@),
                pattern@,
            ),
    {
        let hits = grep_file(file.path.as_str(), content, pattern);
        crate::helper_args::push_all(&mut self.found, hits.as_slice());
    }

    /// What the search hands back.
    pub fn finish(self) -> (o: ToolOutput)
        ensures
            listing(self.found_view(), o.content@),
    {
        render_listing(self.found)
    }
}

} // verus!
