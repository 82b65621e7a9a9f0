use vstd::prelude::*;

verus! {

/// What a sandboxed command, and every in-process tool, may touch.
///
/// Default-deny: a policy nobody configured grants no read access, no write
/// access and no network. Each grant is added explicitly, and grants are kept
/// in the order they were made.
#[derive(Debug, Clone)]
pub struct SandboxPolicy {
    readable: Vec<String>,
    writable: Vec<String>,
    network: bool,
}

impl SandboxPolicy {
    /// The roots granted read access, in the order they were granted.
    pub closed spec fn readable_view(&self) -> Seq<Seq<char>> {
        self.readable.deep_view()
    }

    /// The roots granted write access, in the order they were granted.
    pub closed spec fn writable_view(&self) -> Seq<Seq<char>> {
        self.writable.deep_view()
    }

    /// Whether network access is granted.
    pub closed spec fn network_view(&self) -> bool {
        self.network
    }

    /// Builds a policy from its three parts.
    pub fn from_parts(readable: Vec<String>, writable: Vec<String>, network: bool) -> (p: SandboxPolicy)
        ensures
            p.readable_view() == readable.deep_view(),
            p.writable_view() == writable.deep_view(),
            p.network_view() == network,
    {
        SandboxPolicy { readable, writable, network }
    }

    /// A policy that grants nothing.
    pub fn default() -> (p: SandboxPolicy)
        ensures
            p.readable_view() == Seq::<Seq<char>>::empty(),
            p.writable_view() == Seq::<Seq<char>>::empty(),
            !p.network_view(),
    {
        let p = SandboxPolicy { readable: Vec::new(), writable: Vec::new(), network: false };
        assert(p.readable.deep_view() =~= Seq::<Seq<char>>::empty());
        assert(p.writable.deep_view() =~= Seq::<Seq<char>>::empty());
        p
    }

    /// Grants read access beneath `path`, keeping every earlier grant.
    pub fn allow_read(self, path: &str) -> (p: SandboxPolicy)
        ensures
            p.readable_view() == self.readable_view().push(path@),
            p.writable_view() == self.writable_view(),
            p.network_view() == self.network_view(),
    {
        let mut p = self;
        p.readable.push(path.to_owned());
        assert(p.readable.deep_view() =~= self.readable_view().push(path@));
        p
    }

    /// Grants read and write access beneath `path`, keeping every earlier grant.
    pub fn allow_write(self, path: &str) -> (p: SandboxPolicy)
        ensures
            p.readable_view() == self.readable_view(),
            p.writable_view() == self.writable_view().push(path@),
            p.network_view() == self.network_view(),
    {
        let mut p = self;
        p.writable.push(path.to_owned());
        assert(p.writable.deep_view() =~= self.writable_view().push(path@));
        p
    }

    /// Grants network access, keeping every path grant.
    pub fn allow_network(self) -> (p: SandboxPolicy)
        ensures
            p.readable_view() == self.readable_view(),
            p.writable_view() == self.writable_view(),
            p.network_view(),
    {
        let mut p = self;
        p.network = true;
        p
    }

    /// The roots granted read access.
    pub fn readable_paths(&self) -> (r: &[String])
        ensures
            r.deep_view() == self.readable_view(),
    {
        self.readable.as_slice()
    }

    /// The roots granted write access.
    pub fn writable_paths(&self) -> (r: &[String])
        ensures
            r.deep_view() == self.writable_view(),
    {
        self.writable.as_slice()
    }

    /// Whether network access is granted.
    pub fn allows_network(&self) -> (r: bool)
        ensures
            r == self.network_view(),
    {
        self.network
    }
}

} // verus!
