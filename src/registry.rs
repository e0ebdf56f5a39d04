use vstd::prelude::*;
use vstd::string::StringSliceAdditionalSpecFns;

verus! {

/// A compositor global that this library knows how to use.
#[derive(Clone, Copy, Debug, PartialEq, Eq, Structural)]
pub enum Capability {
    ScreencopyManager,
    Shm,
    Output,
    LayerShell,
    Compositor,
    Seat,
}

/// The capability that an announced interface name stands for, if any.
pub open spec fn spec_capability(name: Seq<u8>) -> Option<Capability> {
    if name == "zwlr_screencopy_manager_v1".spec_bytes() {
        Some(Capability::ScreencopyManager)
    } else if name == "wl_shm".spec_bytes() {
        Some(Capability::Shm)
    } else if name == "wl_output".spec_bytes() {
        Some(Capability::Output)
    } else if name == "zwlr_layer_shell_v1".spec_bytes() {
        Some(Capability::LayerShell)
    } else if name == "wl_compositor".spec_bytes() {
        Some(Capability::Compositor)
    } else if name == "wl_seat".spec_bytes() {
        Some(Capability::Seat)
    } else {
        None
    }
}

fn bytes_equal(a: &[u8], b: &[u8]) -> (r: bool)
    ensures
        r == (a@ == b@),
{
    if a.len() != b.len() {
        return false;
    }
    let mut i: usize = 0;
    while i < a.len()
        invariant
            a@.len() == b@.len(),
            0 <= i <= a@.len(),
            forall|j: int| 0 <= j < i ==> a@[j] == b@[j],
        decreases a@.len() - i,
    {
        if a[i] != b[i] {
            return false;
        }
        i = i + 1;
    }
    assert(a@ =~= b@);
    true
}

/// The capability that an announced interface name stands for, if any.
pub fn capability_of(name: &str) -> (r: Option<Capability>)
    ensures
        r == spec_capability(name.spec_bytes()),
{
    let b = name.as_bytes();
    if bytes_equal(b, "zwlr_screencopy_manager_v1".as_bytes()) {
        Some(Capability::ScreencopyManager)
    } else if bytes_equal(b, "wl_shm".as_bytes()) {
        Some(Capability::Shm)
    } else if bytes_equal(b, "wl_output".as_bytes()) {
        Some(Capability::Output)
    } else if bytes_equal(b, "zwlr_layer_shell_v1".as_bytes()) {
        Some(Capability::LayerShell)
    } else if bytes_equal(b, "wl_compositor".as_bytes()) {
        Some(Capability::Compositor)
    } else if bytes_equal(b, "wl_seat".as_bytes()) {
        Some(Capability::Seat)
    } else {
        None
    }
}

/// How many of the bound globals are outputs.
pub open spec fn count_outputs(bound: Seq<(u32, Capability)>) -> nat
    decreases bound.len(),
{
    if bound.len() == 0 {
        0
    } else {
        count_outputs(bound.drop_last()) + if bound.last().1 is Output {
            1nat
        } else {
            0nat
        }
    }
}

/// The globals bound so far, in the order of their announcement, by numeric id.
pub struct CapabilitySet {
    bound: Vec<(u32, Capability)>,
}

impl View for CapabilitySet {
    type V = Seq<(u32, Capability)>;

    closed spec fn view(&self) -> Seq<(u32, Capability)> {
        self.bound@
    }
}

/// Whether some global with this id is bound.
pub open spec fn id_bound(bound: Seq<(u32, Capability)>, id: u32) -> bool {
    exists|i: int| 0 <= i < bound.len() && (#[trigger] bound[i]).0 == id
}

/// Whether some global of this capability is bound.
pub open spec fn cap_bound(bound: Seq<(u32, Capability)>, cap: Capability) -> bool {
    exists|i: int| 0 <= i < bound.len() && (#[trigger] bound[i]).1 == cap
}

/// What to bind when a global is announced: its capability, unless the name is not
/// recognized, the id is already bound, or a single-instance capability is already held.
/// Outputs accumulate.
pub open spec fn spec_to_bind(bound: Seq<(u32, Capability)>, id: u32, name: Seq<u8>) -> Option<
    Capability,
> {
    match spec_capability(name) {
        None => None,
        Some(cap) => if id_bound(bound, id) || (!(cap is Output) && cap_bound(bound, cap)) {
            None
        } else {
            Some(cap)
        },
    }
}

impl CapabilitySet {
    /// No id twice, and at most one of each capability but outputs.
    pub open spec fn wf(&self) -> bool {
        &&& forall|i: int, j: int|
            0 <= i < j < self@.len() ==> (#[trigger] self@[i]).0 != (#[trigger] self@[j]).0
        &&& forall|i: int, j: int|
            0 <= i < j < self@.len() && (#[trigger] self@[i]).1 == (#[trigger] self@[j]).1
                ==> self@[i].1 is Output
    }

    /// An empty set, before any announcement.
    pub fn new() -> (r: CapabilitySet)
        ensures
            r.wf(),
            r@ == Seq::<(u32, Capability)>::empty(),
    {
        CapabilitySet { bound: Vec::new() }
    }

    /// Whether a global with this id is bound.
    pub fn has_id(&self, id: u32) -> (r: bool)
        ensures
            r == id_bound(self@, id),
    {
        let mut i: usize = 0;
        while i < self.bound.len()
            invariant
                0 <= i <= self@.len(),
                forall|j: int| 0 <= j < i ==> (#[trigger] self@[j]).0 != id,
            decreases self@.len() - i,
        {
            if self.bound[i].0 == id {
                return true;
            }
            i = i + 1;
        }
        false
    }

    /// Whether a global of this capability is bound.
    pub fn has(&self, cap: Capability) -> (r: bool)
        ensures
            r == cap_bound(self@, cap),
    {
        let mut i: usize = 0;
        while i < self.bound.len()
            invariant
                0 <= i <= self@.len(),
                forall|j: int| 0 <= j < i ==> (#[trigger] self@[j]).1 != cap,
            decreases self@.len() - i,
        {
            if self.bound[i].1 == cap {
                return true;
            }
            i = i + 1;
        }
        false
    }

    /// The number of outputs bound.
    pub fn output_count(&self) -> (r: usize)
        ensures
            r == count_outputs(self@),
    {
        let mut i: usize = 0;
        let mut n: usize = 0;
        while i < self.bound.len()
            invariant
                0 <= i <= self@.len(),
                n == count_outputs(self@.subrange(0, i as int)),
                n <= i,
            decreases self@.len() - i,
        {
            proof {
                assert(self@.subrange(0, i as int + 1).drop_last() =~= self@.subrange(0, i as int));
            }
            if matches!(self.bound[i].1, Capability::Output) {
                n = n + 1;
            }
            i = i + 1;
        }
        assert(self@.subrange(0, self@.len() as int) =~= self@);
        n
    }

    /// Handles a global announcement: returns the capability to bind, and records it,
    /// or returns `None` and leaves the set unchanged.
    pub fn on_global(&mut self, id: u32, interface: &str) -> (r: Option<Capability>)
        requires
            old(self).wf(),
        ensures
            final(self).wf(),
            r == spec_to_bind(old(self)@, id, interface.spec_bytes()),
            r matches Some(cap) ==> final(self)@ == old(self)@.push((id, cap)),
            r is None ==> final(self)@ == old(self)@,
    {
        match capability_of(interface) {
            None => None,
            Some(cap) => {
                if self.has_id(id) {
                    return None;
                }
                if !matches!(cap, Capability::Output) && self.has(cap) {
                    return None;
                }
                self.bound.push((id, cap));
                Some(cap)
            },
        }
    }
}

} // verus!
