use vstd::prelude::*;

use crate::error::SandboxError;
use crate::helper_args::{decode_spec, encode_spec, helper_args_round_trip, HelperArgs, Invocation};
use crate::policy::SandboxPolicy;

verus! {

/// The first argument that tells a re-executed echo binary to act as the
/// sandbox helper rather than start normally.
pub const HELPER_FLAG: &'static str = "--echo-sandbox-helper";

/// A command to run under a [`SandboxPolicy`], through the sandbox helper.
///
/// Without an explicit helper the command re-runs the current executable
/// with [`HELPER_FLAG`] first, so a shipped echo needs no second binary.
pub struct SandboxedCommand {
    program: String,
    args: Vec<String>,
    policy: SandboxPolicy,
    helper: Option<String>,
}

impl SandboxedCommand {
    pub closed spec fn program_view(&self) -> Seq<char> {
        self.program@
    }

    pub closed spec fn args_view(&self) -> Seq<Seq<char>> {
        self.args.deep_view()
    }

    pub closed spec fn policy_view(&self) -> SandboxPolicy {
        self.policy
    }

    pub closed spec fn helper_view(&self) -> Option<Seq<char>> {
        match self.helper {
            Some(h) => Some(h@),
            None => None,
        }
    }

    /// What the helper is asked to do: apply the policy, then run the command.
    pub open spec fn invocation(&self) -> Invocation {
        Invocation {
            readable: self.policy_view().readable_view(),
            writable: self.policy_view().writable_view(),
            network: self.policy_view().network_view(),
            program: self.program_view(),
            args: self.args_view(),
        }
    }

    /// A command that runs `program` with no arguments under `policy`.
    pub fn new(program: &str, policy: SandboxPolicy) -> (c: SandboxedCommand)
        ensures
            c.program_view() == program@,
            c.args_view() == Seq::<Seq<char>>::empty(),
            c.policy_view() == policy,
            c.helper_view() is None,
    {
        let c = SandboxedCommand { program: program.to_owned(), args: Vec::new(), policy, helper: None };
        assert(c.args.deep_view() =~= Seq::<Seq<char>>::empty());
        c
    }

    /// Appends one argument for the program.
    pub fn arg(self, a: &str) -> (c: SandboxedCommand)
        ensures
            c.program_view() == self.program_view(),
            c.args_view() == self.args_view().push(a@),
            c.policy_view() == self.policy_view(),
            c.helper_view() == self.helper_view(),
    {
        let mut c = self;
        c.args.push(a.to_owned());
        assert(c.args.deep_view() =~= self.args_view().push(a@));
        c
    }

    /// Runs the command through the helper binary at `path` instead of the
    /// current executable.
    pub fn helper(self, path: &str) -> (c: SandboxedCommand)
        ensures
            c.program_view() == self.program_view(),
            c.args_view() == self.args_view(),
            c.policy_view() == self.policy_view(),
            c.helper_view() == Some(path@),
    {
        let mut c = self;
        c.helper = Some(path.to_owned());
        c
    }

    /// The executable to start and its arguments.
    ///
    /// With an explicit helper, the arguments are the encoded policy and
    /// command alone: that binary is already a helper and needs no telling.
    /// Otherwise the executable is `current_exe`, the location of the running
    /// binary, and [`HELPER_FLAG`] comes first. Either way, what follows
    /// decodes back to exactly this command's policy and command.
    pub fn command_line(&self, current_exe: Result<String, String>) -> (r: Result<
        (String, Vec<String>),
        SandboxError,
    >)
        ensures
            match self.helper_view() {
                Some(h) => r matches Ok((exe, argv)) && exe@ == h && argv.deep_view()
                    == encode_spec(self.invocation()),
                None => match current_exe {
                    Ok(path) => r matches Ok((exe, argv)) && exe@ == path@ && argv.deep_view()
                        == seq![HELPER_FLAG@] + encode_spec(self.invocation()),
                    Err(e) => r matches Err(SandboxError::SpawnFailed { detail, source })
                        && detail@ == "could not locate the current executable"@ && source@
                        == e@,
                },
            },
            r matches Ok((exe, argv)) ==> decode_spec(
                if self.helper_view() is Some {
                    argv.deep_view()
                } else {
                    argv.deep_view().skip(1)
                },
            ) == Ok::<Invocation, crate::helper_args::DecodeFault>(self.invocation()),
    {
        proof {
            helper_args_round_trip(self.invocation());
        }
        let encoded = HelperArgs::encode(&self.policy, self.program.as_str(), self.args.as_slice());
        match &self.helper {
            Some(h) => Ok((h.clone(), encoded)),
            None => match current_exe {
                Ok(exe) => {
                    let mut argv: Vec<String> = Vec::new();
                    argv.push(String::from_str(HELPER_FLAG));
                    crate::helper_args::push_all(&mut argv, encoded.as_slice());
                    assert(argv.deep_view() =~= seq![HELPER_FLAG@] + encoded.deep_view());
                    assert(argv.deep_view().skip(1) =~= encoded.deep_view());
                    Ok((exe, argv))
                },
                Err(e) => Err(
                    SandboxError::SpawnFailed {
                        detail: String::from_str("could not locate the current executable"),
                        source: e,
                    },
                ),
            },
        }
    }
}

/// The helper's arguments, when the process was started in helper mode:
/// everything after [`HELPER_FLAG`], which must directly follow the program
/// name. `None` means the process should start normally.
pub fn helper_mode_args(args: &[String]) -> (r: Option<Vec<String>>)
    ensures
        r is Some <==> args.len() >= 2 && args[1]@ == HELPER_FLAG@,
        r matches Some(rest) ==> rest.deep_view() == args.deep_view().skip(2),
{
    if args.len() >= 2 && args[1] == String::from_str(HELPER_FLAG) {
        let mut rest: Vec<String> = Vec::new();
        crate::helper_args::push_all(&mut rest, vstd::slice::slice_subrange(args, 2, args.len()));
        assert(rest.deep_view() =~= args.deep_view().skip(2));
        Some(rest)
    } else {
        None
    }
}

} // verus!
