use vstd::prelude::*;

use crate::text::{
    append_chars, chars_of, count_positions, decimal, decimal_chars, lemma_occurrence_count,
    occurrence_count, occurs_at, occurs_once, string_of,
};
use crate::error::{sandbox_error_text, SandboxError};
use crate::tools::{denied, ToolError, ToolOutput};

verus! {

/// Why an edit whose text appears `count` times is refused; none when it
/// appears exactly once.
pub open spec fn edit_refusal(count: nat) -> Seq<char> {
    if count == 0 {
        "the text to replace does not appear in the file"@
    } else {
        "the text to replace appears "@ + decimal(count) + " times; it must be unique"@
    }
}

/// Replaces the one exact occurrence of `old` in `content` with `new`,
/// where `path` names the file in errors.
///
/// The text must appear at exactly one position, overlapping occurrences
/// counted: in `aaa`, `aa` appears twice. A match that is absent or
/// ambiguous is an error, never a silent no-op or a guess: the model believes
/// the edit happened, so getting it wrong quietly is worse than failing.
pub fn edit_text(path: &str, content: &str, old: &str, new: &str) -> (r: Result<String, ToolError>)
    requires
        content@.len() < usize::MAX,
    ensures
        occurs_once(content@, old@) ==> (r matches Ok(t) && exists|i: int|
            #![trigger occurs_at(content@, old@, i)]
            occurs_at(content@, old@, i) && t@ == content@.take(i) + new@ + content@.skip(
                i + old@.len(),
            )),
        !occurs_once(content@, old@) ==> (r matches Err(ToolError::Failed { subject, detail })
            && subject@ == "edit "@ + path@ && detail@ == edit_refusal(
            occurrence_count(content@, old@),
        )),
{
    let h = chars_of(content);
    let p = chars_of(old);
    let n = chars_of(new);
    let (occurrences, at) = count_positions(&h, &p);
    proof {
        lemma_occurrence_count(h@, p@);
    }
    if occurrences != 1 {
        let mut subject = String::from_str("edit ");
        subject.append(path);
        let detail = if occurrences == 0 {
            String::from_str("the text to replace does not appear in the file")
        } else {
            let mut d = String::from_str("the text to replace appears ");
            let digits = decimal_chars(occurrences);
            let digits_text = string_of(digits.as_slice());
            d.append(digits_text.as_str());
            d.append(" times; it must be unique");
            d
        };
        return Err(ToolError::Failed { subject, detail });
    }
    let mut out: Vec<char> = Vec::new();
    let mut k: usize = 0;
    while k < at
        invariant
            k <= at,
            at + p.len() <= h.len(),
            out@ == h@.take(k as int),
        decreases at - k,
    {
        out.push(h[k]);
        assert(out@ =~= h@.take(k + 1));
        k = k + 1;
    }
    append_chars(&mut out, &n);
    let mut k: usize = at + p.len();
    let ghost mid = out@;
    while k < h.len()
        invariant
            at + p.len() <= k <= h.len(),
            out@ == mid + h@.subrange(at + p.len(), k as int),
        decreases h.len() - k,
    {
        out.push(h[k]);
        assert(out@ =~= mid + h@.subrange(at + p.len(), k + 1));
        k = k + 1;
    }
    assert(out@ =~= content@.take(at as int) + new@ + content@.skip(at + old@.len()));
    assert(occurs_at(content@, old@, at as int));
    Ok(string_of(out.as_slice()))
}

/// Where an edit stands before the file is read.
///
/// An edit needs both grants, checked separately: the policy grants them
/// independently, so an edit on a read-only root must fail even though the
/// read half would succeed. Both are checked before anything is read, so a
/// read-only grant fails without first disclosing the file's contents.
pub enum EditStep {
    /// The read check passed: check the write next.
    CheckWrite { readable: String },
    /// Both checks passed: read from `readable`, write to `writable`.
    Proceed { readable: String, writable: String },
    /// A check failed: report this, and touch nothing.
    Refused(ToolError),
}

/// The step after the read check of the file at `path`.
pub fn after_read_check(path: &str, read: Result<String, SandboxError>) -> (r: EditStep)
    ensures
        match read {
            Ok(p) => r matches EditStep::CheckWrite { readable } && readable@ == p@,
            Err(e) => r matches EditStep::Refused(ToolError::Denied { subject, reason })
                && subject@ == path@ && reason@ == sandbox_error_text(e),
        },
{
    match read {
        Ok(readable) => EditStep::CheckWrite { readable },
        Err(e) => EditStep::Refused(denied(path, &e)),
    }
}

/// The step after the write check, once the read check has passed with
/// `readable`: only now may the file be read.
pub fn after_write_check(path: &str, readable: String, write: Result<String, SandboxError>) -> (r:
    EditStep)
    ensures
        match write {
            Ok(w) => r matches EditStep::Proceed { readable: rd, writable } && rd@ == readable@
                && writable@ == w@,
            Err(e) => r matches EditStep::Refused(ToolError::Denied { subject, reason })
                && subject@ == path@ && reason@ == sandbox_error_text(e),
        },
{
    match write {
        Ok(writable) => EditStep::Proceed { readable, writable },
        Err(e) => EditStep::Refused(denied(path, &e)),
    }
}

/// What the `edit` tool reports once the file at `path` is written.
pub fn edited_output(path: &str) -> (o: ToolOutput)
    ensures
        o.content@ == "edited "@ + path@,
{
    let mut content = String::from_str("edited ");
    content.append(path);
    ToolOutput { content }
}

} // verus!
