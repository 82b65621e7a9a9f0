use vstd::prelude::*;

use crate::error::{ArgumentError, SandboxError};
use crate::policy::SandboxPolicy;
use vstd::slice::slice_subrange;

verus! {

/// The flag that grants read access to the path after it.
pub open spec fn ro_flag() -> Seq<char> {
    seq!['-', '-', 'r', 'o']
}

/// The flag that grants read and write access to the path after it.
pub open spec fn rw_flag() -> Seq<char> {
    seq!['-', '-', 'r', 'w']
}

/// The flag that grants network access.
pub open spec fn network_flag() -> Seq<char> {
    seq!['-', '-', 'a', 'l', 'l', 'o', 'w', '-', 'n', 'e', 't', 'w', 'o', 'r', 'k']
}

/// The argument that ends the grants; the program and its arguments follow it.
pub open spec fn separator() -> Seq<char> {
    seq!['-', '-']
}

/// What a helper command line carries: the policy's three parts, then the
/// program and its arguments.
pub ghost struct Invocation {
    pub readable: Seq<Seq<char>>,
    pub writable: Seq<Seq<char>>,
    pub network: bool,
    pub program: Seq<char>,
    pub args: Seq<Seq<char>>,
}

/// Why a command line does not decode.
pub ghost enum DecodeFault {
    MissingPath(Seq<char>),
    UnknownArgument(Seq<char>),
    MissingSeparator,
    MissingProgram,
}

/// `flag p0 flag p1 ...`: one flag before each path.
pub open spec fn flag_pairs(flag: Seq<char>, paths: Seq<Seq<char>>) -> Seq<Seq<char>>
    decreases paths.len(),
{
    if paths.len() == 0 {
        seq![]
    } else {
        seq![flag, paths[0]] + flag_pairs(flag, paths.drop_first())
    }
}

/// The helper command line for an invocation:
/// `[--ro PATH]... [--rw PATH]... [--allow-network] -- PROGRAM [ARGS]...`
pub open spec fn encode_spec(inv: Invocation) -> Seq<Seq<char>> {
    flag_pairs(ro_flag(), inv.readable) + flag_pairs(rw_flag(), inv.writable) + (if inv.network {
        seq![network_flag()]
    } else {
        seq![]
    }) + seq![separator(), inv.program] + inv.args
}

/// The invocation decoded from `rest`, with grants that came before it put in front.
pub open spec fn with_grants(
    rest: Result<Invocation, DecodeFault>,
    readable: Seq<Seq<char>>,
    writable: Seq<Seq<char>>,
    network: bool,
) -> Result<Invocation, DecodeFault> {
    match rest {
        Ok(v) => Ok(
            Invocation {
                readable: readable + v.readable,
                writable: writable + v.writable,
                network: network || v.network,
                program: v.program,
                args: v.args,
            },
        ),
        Err(e) => Err(e),
    }
}

/// How the helper reads its command line. Grant flags may come in any order
/// and repeat; the first `--` ends them, and everything after the program is
/// passed to it untouched, whatever it looks like.
pub open spec fn decode_spec(a: Seq<Seq<char>>) -> Result<Invocation, DecodeFault>
    decreases a.len(),
{
    if a.len() == 0 {
        Err(DecodeFault::MissingSeparator)
    } else if a[0] == ro_flag() {
        if a.len() < 2 {
            Err(DecodeFault::MissingPath(ro_flag()))
        } else {
            with_grants(decode_spec(a.skip(2)), seq![a[1]], seq![], false)
        }
    } else if a[0] == rw_flag() {
        if a.len() < 2 {
            Err(DecodeFault::MissingPath(rw_flag()))
        } else {
            with_grants(decode_spec(a.skip(2)), seq![], seq![a[1]], false)
        }
    } else if a[0] == network_flag() {
        with_grants(decode_spec(a.skip(1)), seq![], seq![], true)
    } else if a[0] == separator() {
        if a.len() < 2 {
            Err(DecodeFault::MissingProgram)
        } else {
            Ok(
                Invocation {
                    readable: seq![],
                    writable: seq![],
                    network: false,
                    program: a[1],
                    args: a.skip(2),
                },
            )
        }
    } else {
        Err(DecodeFault::UnknownArgument(a[0]))
    }
}

/// The fault an argument error stands for.
pub open spec fn fault_of(e: ArgumentError) -> DecodeFault {
    match e {
        ArgumentError::MissingPath { flag } => DecodeFault::MissingPath(flag@),
        ArgumentError::UnknownArgument { argument } => DecodeFault::UnknownArgument(argument@),
        ArgumentError::MissingSeparator => DecodeFault::MissingSeparator,
        ArgumentError::MissingProgram => DecodeFault::MissingProgram,
    }
}

/// A decoded helper command line: the policy to apply, then the command to run.
pub struct HelperArgs {
    pub policy: SandboxPolicy,
    pub program: String,
    pub args: Vec<String>,
}

impl HelperArgs {
    pub open spec fn invocation(&self) -> Invocation {
        Invocation {
            readable: self.policy.readable_view(),
            writable: self.policy.writable_view(),
            network: self.policy.network_view(),
            program: self.program@,
            args: self.args.deep_view(),
        }
    }

    /// The command line that carries `policy` and the command to the helper.
    pub fn encode(policy: &SandboxPolicy, program: &str, args: &[String]) -> (r: Vec<String>)
        ensures
            r.deep_view() == encode_spec(
                Invocation {
                    readable: policy.readable_view(),
                    writable: policy.writable_view(),
                    network: policy.network_view(),
                    program: program@,
                    args: args.deep_view(),
                },
            ),
    {
        let mut r: Vec<String> = Vec::new();
        push_flag_pairs(&mut r, ro_flag_text(), policy.readable_paths());
        push_flag_pairs(&mut r, rw_flag_text(), policy.writable_paths());
        let ghost before_network = r.deep_view();
        if policy.allows_network() {
            r.push(network_flag_text());
        }
        let ghost before_command = r.deep_view();
        r.push(separator_text());
        r.push(program.to_owned());
        let ghost before_args = r.deep_view();
        push_all(&mut r, args);
        assert(r.deep_view() =~= before_args + args.deep_view());
        assert(before_args =~= before_command + seq![separator(), program@]);
        assert(r.deep_view() =~= encode_spec(
            Invocation {
                readable: policy.readable_view(),
                writable: policy.writable_view(),
                network: policy.network_view(),
                program: program@,
                args: args.deep_view(),
            },
        ));
        r
    }

    /// Reads a helper command line back into the policy and the command.
    ///
    /// Anything it does not understand is refused: a helper that cannot tell
    /// what it was asked to enforce must not run the command.
    pub fn decode(argv: &[String]) -> (r: Result<HelperArgs, SandboxError>)
        ensures
            match decode_spec(argv.deep_view()) {
                Ok(v) => r matches Ok(h) && h.invocation() == v,
                Err(f) => r matches Err(SandboxError::InvalidArguments { reason }) && fault_of(
                    reason,
                ) == f,
            },
    {
        let ghost a = argv.deep_view();
        let ro = ro_flag_text();
        let rw = rw_flag_text();
        let net = network_flag_text();
        let sep = separator_text();
        let mut readable: Vec<String> = Vec::new();
        let mut writable: Vec<String> = Vec::new();
        let mut network = false;
        let mut i: usize = 0;
        assert(a.skip(0) =~= a);
        assert(readable.deep_view() =~= Seq::<Seq<char>>::empty());
        assert(writable.deep_view() =~= Seq::<Seq<char>>::empty());
        proof {
            lemma_with_no_grants(decode_spec(a));
        }
        loop
            invariant
                a == argv.deep_view(),
                i <= argv.len(),
                ro@ == ro_flag(),
                rw@ == rw_flag(),
                net@ == network_flag(),
                sep@ == separator(),
                decode_spec(a) == with_grants(
                    decode_spec(a.skip(i as int)),
                    readable.deep_view(),
                    writable.deep_view(),
                    network,
                ),
            decreases argv.len() - i,
        {
            let ghost rest = a.skip(i as int);
            if i == argv.len() {
                assert(rest.len() == 0);
                return Err(SandboxError::InvalidArguments { reason: ArgumentError::MissingSeparator });
            }
            assert(rest[0] == argv[i as int]@);
            if argv[i] == ro || argv[i] == rw {
                let is_ro = argv[i] == ro;
                if i + 1 == argv.len() {
                    let flag = if is_ro { ro_flag_text() } else { rw_flag_text() };
                    return Err(
                        SandboxError::InvalidArguments {
                            reason: ArgumentError::MissingPath { flag },
                        },
                    );
                }
                let ghost old_readable = readable.deep_view();
                let ghost old_writable = writable.deep_view();
                assert(rest.skip(2) =~= a.skip(i + 2));
                assert(rest[1] == argv[i + 1]@);
                if is_ro {
                    readable.push(argv[i + 1].clone());
                    assert(readable.deep_view() =~= old_readable + seq![argv[i + 1]@]);
                    proof {
                        lemma_with_grants_compose(
                            decode_spec(a.skip(i + 2)),
                            seq![argv[i + 1]@],
                            seq![],
                            false,
                            old_readable,
                            old_writable,
                            network,
                        );
                        assert(old_writable + seq![] =~= old_writable);
                    }
                } else {
                    writable.push(argv[i + 1].clone());
                    assert(writable.deep_view() =~= old_writable + seq![argv[i + 1]@]);
                    proof {
                        lemma_with_grants_compose(
                            decode_spec(a.skip(i + 2)),
                            seq![],
                            seq![argv[i + 1]@],
                            false,
                            old_readable,
                            old_writable,
                            network,
                        );
                        assert(old_readable + seq![] =~= old_readable);
                    }
                }
                i = i + 2;
            } else if argv[i] == net {
                assert(rest.skip(1) =~= a.skip(i + 1));
                proof {
                    lemma_with_grants_compose(
                        decode_spec(a.skip(i + 1)),
                        seq![],
                        seq![],
                        true,
                        readable.deep_view(),
                        writable.deep_view(),
                        network,
                    );
                    assert(readable.deep_view() + seq![] =~= readable.deep_view());
                    assert(writable.deep_view() + seq![] =~= writable.deep_view());
                }
                network = true;
                i = i + 1;
            } else if argv[i] == sep {
                if i + 1 == argv.len() {
                    return Err(SandboxError::InvalidArguments { reason: ArgumentError::MissingProgram });
                }
                let program = argv[i + 1].clone();
                let mut args: Vec<String> = Vec::new();
                push_all(&mut args, slice_from(argv, i + 2));
                assert(args.deep_view() =~= rest.skip(2));
                assert(readable.deep_view() + Seq::<Seq<char>>::empty() =~= readable.deep_view());
                assert(writable.deep_view() + Seq::<Seq<char>>::empty() =~= writable.deep_view());
                let policy = SandboxPolicy::from_parts(readable, writable, network);
                return Ok(HelperArgs { policy, program, args });
            } else {
                return Err(
                    SandboxError::InvalidArguments {
                        reason: ArgumentError::UnknownArgument { argument: argv[i].clone() },
                    },
                );
            }
        }
    }
}

/// Decoding reads back exactly what encoding wrote: no grant is lost, none is
/// invented, and the program and its arguments arrive unchanged, whatever
/// text the paths and arguments hold.
pub proof fn helper_args_round_trip(inv: Invocation)
    ensures
        decode_spec(encode_spec(inv)) == Ok::<Invocation, DecodeFault>(inv),
{
    let net_part: Seq<Seq<char>> = if inv.network {
        seq![network_flag()]
    } else {
        seq![]
    };
    let tail = seq![separator(), inv.program] + inv.args;
    let after_rw = net_part + tail;
    let after_ro = flag_pairs(rw_flag(), inv.writable) + after_rw;
    assert(encode_spec(inv) =~= flag_pairs(ro_flag(), inv.readable) + after_ro);
    lemma_flags_distinct();
    // The command part decodes on its own.
    assert(tail[0] == separator());
    assert(tail.skip(2) =~= inv.args);
    let base = Invocation {
        readable: seq![],
        writable: seq![],
        network: false,
        program: inv.program,
        args: inv.args,
    };
    assert(decode_spec(tail) == Ok::<Invocation, DecodeFault>(base));
    // Then the network flag.
    let with_net = Invocation { network: inv.network, ..base };
    if inv.network {
        assert(after_rw[0] == network_flag());
        assert(after_rw.skip(1) =~= tail);
        assert(network_flag() != ro_flag());
        assert(network_flag() != rw_flag());
        assert(seq![] + base.readable =~= base.readable);
        assert(seq![] + base.writable =~= base.writable);
    } else {
        assert(after_rw =~= tail);
    }
    assert(decode_spec(after_rw) == Ok::<Invocation, DecodeFault>(with_net));
    lemma_decode_flag_pairs(rw_flag(), inv.writable, after_rw);
    assert(inv.writable + with_net.writable =~= inv.writable);
    assert(seq![] + with_net.readable =~= with_net.readable);
    let with_rw = Invocation { writable: inv.writable, ..with_net };
    assert(decode_spec(after_ro) == Ok::<Invocation, DecodeFault>(with_rw));
    lemma_decode_flag_pairs(ro_flag(), inv.readable, after_ro);
    assert(inv.readable + with_rw.readable =~= inv.readable);
    assert(seq![] + with_rw.writable =~= with_rw.writable);
    assert(decode_spec(encode_spec(inv)) == Ok::<Invocation, DecodeFault>(inv));
}

/// One grant on a helper command line.
pub ghost enum Grant {
    Read(Seq<char>),
    Write(Seq<char>),
    Network,
}

/// The words that spell out `grants`, in order: `--ro PATH`, `--rw PATH` or
/// `--allow-network` for each.
pub open spec fn grant_words(grants: Seq<Grant>) -> Seq<Seq<char>>
    decreases grants.len(),
{
    if grants.len() == 0 {
        seq![]
    } else {
        (match grants[0] {
            Grant::Read(p) => seq![ro_flag(), p],
            Grant::Write(p) => seq![rw_flag(), p],
            Grant::Network => seq![network_flag()],
        }) + grant_words(grants.drop_first())
    }
}

/// The paths `grants` grant read access to, in order.
pub open spec fn granted_reads(grants: Seq<Grant>) -> Seq<Seq<char>>
    decreases grants.len(),
{
    if grants.len() == 0 {
        seq![]
    } else {
        (match grants[0] {
            Grant::Read(p) => seq![p],
            _ => seq![],
        }) + granted_reads(grants.drop_first())
    }
}

/// The paths `grants` grant write access to, in order.
pub open spec fn granted_writes(grants: Seq<Grant>) -> Seq<Seq<char>>
    decreases grants.len(),
{
    if grants.len() == 0 {
        seq![]
    } else {
        (match grants[0] {
            Grant::Write(p) => seq![p],
            _ => seq![],
        }) + granted_writes(grants.drop_first())
    }
}

/// Whether `grants` grant network access.
pub open spec fn grants_network(grants: Seq<Grant>) -> bool
    decreases grants.len(),
{
    grants.len() > 0 && (grants[0] is Network || grants_network(grants.drop_first()))
}

/// The helper accepts only command lines of its usage form: grant words,
/// `--`, the program, its arguments. What it returns is exactly what those
/// words say: the paths of the read grants and of the write grants in order,
/// network access when it was granted, and the program and arguments after
/// the first `--`.
pub proof fn decode_accepts_only_usage_lines(a: Seq<Seq<char>>) -> (grants: Seq<Grant>)
    requires
        decode_spec(a) is Ok,
    ensures
        decode_spec(a) matches Ok(v) && a == grant_words(grants) + seq![separator(), v.program]
            + v.args && v.readable == granted_reads(grants) && v.writable == granted_writes(grants)
            && v.network == grants_network(grants),
    decreases a.len(),
{
    lemma_flags_distinct();
    if a[0] == ro_flag() || a[0] == rw_flag() || a[0] == network_flag() {
        let step: int = if a[0] == network_flag() {
            1
        } else {
            2
        };
        let rest = a.skip(step);
        let inner = decode_accepts_only_usage_lines(rest);
        let g = if a[0] == ro_flag() {
            Grant::Read(a[1])
        } else if a[0] == rw_flag() {
            Grant::Write(a[1])
        } else {
            Grant::Network
        };
        let grants = seq![g] + inner;
        assert(grants[0] == g);
        assert(grants.drop_first() =~= inner);
        let v = decode_spec(rest)->Ok_0;
        let words = grant_words(grants);
        if step == 2 {
            assert(a =~= seq![a[0], a[1]] + rest);
            assert(seq![a[0], a[1]] + (grant_words(inner) + seq![separator(), v.program] + v.args)
                =~= words + seq![separator(), v.program] + v.args);
        } else {
            assert(a =~= seq![a[0]] + rest);
            assert(seq![a[0]] + (grant_words(inner) + seq![separator(), v.program] + v.args)
                =~= words + seq![separator(), v.program] + v.args);
        }
        assert(granted_reads(grants) == (match g {
            Grant::Read(p) => seq![p],
            _ => Seq::<Seq<char>>::empty(),
        }) + granted_reads(inner));
        assert(granted_writes(grants) == (match g {
            Grant::Write(p) => seq![p],
            _ => Seq::<Seq<char>>::empty(),
        }) + granted_writes(inner));
        assert(Seq::<Seq<char>>::empty() + granted_reads(inner) =~= granted_reads(inner));
        assert(Seq::<Seq<char>>::empty() + granted_writes(inner) =~= granted_writes(inner));
        grants
    } else {
        let grants = Seq::<Grant>::empty();
        assert(a[0] == separator());
        assert(a =~= seq![separator(), a[1]] + a.skip(2));
        assert(grant_words(grants) =~= Seq::<Seq<char>>::empty());
        assert(Seq::<Seq<Seq<char>>>::empty().len() == 0);
        grants
    }
}

/// The helper refuses every argument it does not know: after any run of
/// grant words, an argument that is neither a grant flag nor `--` is
/// refused as unknown, whatever follows it. A command line that leaves out
/// the `--` before the program is never run.
pub proof fn decode_refuses_unknown_arguments(
    grants: Seq<Grant>,
    x: Seq<char>,
    rest: Seq<Seq<char>>,
)
    requires
        x != ro_flag(),
        x != rw_flag(),
        x != network_flag(),
        x != separator(),
    ensures
        decode_spec(grant_words(grants) + seq![x] + rest) == Err::<Invocation, DecodeFault>(
            DecodeFault::UnknownArgument(x),
        ),
    decreases grants.len(),
{
    let a = grant_words(grants) + seq![x] + rest;
    if grants.len() == 0 {
        assert(a =~= seq![x] + rest);
        assert(a[0] == x);
    } else {
        let inner = grants.drop_first();
        decode_refuses_unknown_arguments(inner, x, rest);
        let tail = grant_words(inner) + seq![x] + rest;
        lemma_flags_distinct();
        match grants[0] {
            Grant::Read(p) => {
                assert(a =~= seq![ro_flag(), p] + tail);
                assert(a.skip(2) =~= tail);
            },
            Grant::Write(p) => {
                assert(a =~= seq![rw_flag(), p] + tail);
                assert(a.skip(2) =~= tail);
            },
            Grant::Network => {
                assert(a =~= seq![network_flag()] + tail);
                assert(a.skip(1) =~= tail);
            },
        }
    }
}

/// Decoding a run of `flag path` pairs puts the paths, in order, in front of
/// what the rest decodes to.
proof fn lemma_decode_flag_pairs(flag: Seq<char>, paths: Seq<Seq<char>>, rest: Seq<Seq<char>>)
    requires
        flag == ro_flag() || flag == rw_flag(),
    ensures
        decode_spec(flag_pairs(flag, paths) + rest) == (if flag == ro_flag() {
            with_grants(decode_spec(rest), paths, seq![], false)
        } else {
            with_grants(decode_spec(rest), seq![], paths, false)
        }),
    decreases paths.len(),
{
    lemma_flags_distinct();
    if paths.len() == 0 {
        assert(flag_pairs(flag, paths) + rest =~= rest);
        lemma_with_no_grants(decode_spec(rest));
    } else {
        let s = flag_pairs(flag, paths) + rest;
        let inner = flag_pairs(flag, paths.drop_first()) + rest;
        assert(s =~= seq![flag, paths[0]] + inner);
        assert(s.skip(2) =~= inner);
        assert(s[0] == flag);
        assert(s[1] == paths[0]);
        lemma_decode_flag_pairs(flag, paths.drop_first(), rest);
        assert(paths =~= seq![paths[0]] + paths.drop_first());
        if flag == ro_flag() {
            lemma_with_grants_compose(
                decode_spec(rest),
                paths.drop_first(),
                seq![],
                false,
                seq![paths[0]],
                seq![],
                false,
            );
            assert(Seq::<Seq<char>>::empty() + Seq::<Seq<char>>::empty() =~= Seq::<Seq<char>>::empty());
        } else {
            lemma_with_grants_compose(
                decode_spec(rest),
                seq![],
                paths.drop_first(),
                false,
                seq![],
                seq![paths[0]],
                false,
            );
            assert(Seq::<Seq<char>>::empty() + Seq::<Seq<char>>::empty() =~= Seq::<Seq<char>>::empty());
        }
    }
}

/// The four words the command line is built from are all different.
proof fn lemma_flags_distinct()
    ensures
        ro_flag() != rw_flag(),
        ro_flag() != network_flag(),
        ro_flag() != separator(),
        rw_flag() != network_flag(),
        rw_flag() != separator(),
        network_flag() != separator(),
{
    assert(ro_flag()[3] != rw_flag()[3]);
    assert(ro_flag().len() != network_flag().len());
    assert(ro_flag().len() != separator().len());
    assert(rw_flag().len() != network_flag().len());
    assert(rw_flag().len() != separator().len());
    assert(network_flag().len() != separator().len());
}

proof fn lemma_with_no_grants(r: Result<Invocation, DecodeFault>)
    ensures
        with_grants(r, seq![], seq![], false) == r,
{
    if let Ok(v) = r {
        assert(Seq::<Seq<char>>::empty() + v.readable =~= v.readable);
        assert(Seq::<Seq<char>>::empty() + v.writable =~= v.writable);
    }
}

proof fn lemma_with_grants_compose(
    r: Result<Invocation, DecodeFault>,
    r1: Seq<Seq<char>>,
    w1: Seq<Seq<char>>,
    n1: bool,
    r0: Seq<Seq<char>>,
    w0: Seq<Seq<char>>,
    n0: bool,
)
    ensures
        with_grants(with_grants(r, r1, w1, n1), r0, w0, n0) == with_grants(
            r,
            r0 + r1,
            w0 + w1,
            n0 || n1,
        ),
{
    if let Ok(v) = r {
        assert(r0 + (r1 + v.readable) =~= (r0 + r1) + v.readable);
        assert(w0 + (w1 + v.writable) =~= (w0 + w1) + v.writable);
    }
}

fn ro_flag_text() -> (s: String)
    ensures
        s@ == ro_flag(),
{
    let s = String::from_str("--ro");
    proof {
        reveal_strlit("--ro");
    }
    assert(s@ =~= ro_flag());
    s
}

fn rw_flag_text() -> (s: String)
    ensures
        s@ == rw_flag(),
{
    let s = String::from_str("--rw");
    proof {
        reveal_strlit("--rw");
    }
    assert(s@ =~= rw_flag());
    s
}

fn network_flag_text() -> (s: String)
    ensures
        s@ == network_flag(),
{
    let s = String::from_str("--allow-network");
    proof {
        reveal_strlit("--allow-network");
    }
    assert(s@ =~= network_flag());
    s
}

fn separator_text() -> (s: String)
    ensures
        s@ == separator(),
{
    let s = String::from_str("--");
    proof {
        reveal_strlit("--");
    }
    assert(s@ =~= separator());
    s
}

/// Appends a copy of each of `items`, in order.
pub fn push_all(out: &mut Vec<String>, items: &[String])
    ensures
        final(out).deep_view() == old(out).deep_view() + items.deep_view(),
{
    let ghost start = out.deep_view();
    let mut j: usize = 0;
    while j < items.len()
        invariant
            j <= items.len(),
            out.deep_view() == start + items.deep_view().take(j as int),
        decreases items.len() - j,
    {
        let ghost prev = out.deep_view();
        out.push(items[j].clone());
        assert(out.deep_view() =~= prev.push(items[j as int]@));
        assert(items.deep_view().take(j + 1) =~= items.deep_view().take(j as int).push(items[j as int]@));
        assert(out.deep_view() =~= start + items.deep_view().take(j + 1));
        j = j + 1;
    }
    assert(items.deep_view().take(j as int) =~= items.deep_view());
}

fn push_flag_pairs(out: &mut Vec<String>, flag: String, paths: &[String])
    ensures
        final(out).deep_view() == old(out).deep_view() + flag_pairs(flag@, paths.deep_view()),
{
    let ghost start = out.deep_view();
    let mut j: usize = 0;
    while j < paths.len()
        invariant
            j <= paths.len(),
            out.deep_view() == start + flag_pairs(flag@, paths.deep_view().take(j as int)),
        decreases paths.len() - j,
    {
        let ghost prev = out.deep_view();
        out.push(flag.clone());
        out.push(paths[j].clone());
        assert(out.deep_view() =~= prev + seq![flag@, paths[j as int]@]);
        proof {
            lemma_flag_pairs_push(flag@, paths.deep_view().take(j as int), paths[j as int]@);
            assert(paths.deep_view().take(j + 1) =~= paths.deep_view().take(j as int).push(
                paths[j as int]@,
            ));
        }
        assert(out.deep_view() =~= start + flag_pairs(flag@, paths.deep_view().take(j + 1)));
        j = j + 1;
    }
    assert(paths.deep_view().take(j as int) =~= paths.deep_view());
}

proof fn lemma_flag_pairs_push(flag: Seq<char>, paths: Seq<Seq<char>>, p: Seq<char>)
    ensures
        flag_pairs(flag, paths.push(p)) == flag_pairs(flag, paths) + seq![flag, p],
    decreases paths.len(),
{
    if paths.len() == 0 {
        let q = paths.push(p);
        assert(q.drop_first() =~= Seq::<Seq<char>>::empty());
        assert(flag_pairs(flag, q.drop_first()) =~= Seq::<Seq<char>>::empty());
        assert(flag_pairs(flag, q) =~= seq![flag, p]);
        assert(flag_pairs(flag, paths) + seq![flag, p] =~= seq![flag, p]);
    } else {
        assert(paths.push(p).drop_first() =~= paths.drop_first().push(p));
        lemma_flag_pairs_push(flag, paths.drop_first(), p);
        assert(flag_pairs(flag, paths.push(p)) =~= flag_pairs(flag, paths) + seq![flag, p]);
    }
}

/// The arguments from position `start` on.
fn slice_from(items: &[String], start: usize) -> (r: &[String])
    requires
        start <= items.len(),
    ensures
        r.deep_view() == items.deep_view().skip(start as int),
{
    let r = slice_subrange(items, start, items.len());
    assert(r.deep_view() =~= items.deep_view().skip(start as int));
    r
}

} // verus!
