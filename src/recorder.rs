use vstd::prelude::*;

use crate::in_mem_world::InMemWorld;
use crate::world::GridModel;

verus! {

/// The decimal digit for `d < 10`.
pub open spec fn digit(d: nat) -> char {
    seq!['0', '1', '2', '3', '4', '5', '6', '7', '8', '9'][d as int]
}

/// `n` in decimal digits, most significant first, without leading zeros.
pub open spec fn decimal(n: nat) -> Seq<char>
    decreases n,
{
    if n < 10 {
        seq![digit(n)]
    } else {
        decimal(n / 10).push(digit(n % 10))
    }
}

/// The namespace under which snapshots are stored.
pub open spec fn key_prefix() -> Seq<char> {
    seq!['g', 'a', 'm', 'e', 'o', 'f', 'l', 'i', 'f', 'e', ':', 'i', 't', 'e', 'r', 'a', 't', 'i', 'o', 'n', ':']
}

/// Relies on the `Display` impl of `u64`, reached through `to_string`: the
/// number in decimal digits, with no sign, padding or separator.
#[verifier::external_body]
fn decimal_string(n: u64) -> (r: String)
    ensures
        r@ == decimal(n as nat),
{
    n.to_string()
}

/// The key under which the snapshot of grid `id` at `generation` is stored:
/// `gameoflife:iteration:<id>:<generation>`.
pub fn iteration_key(id: &str, generation: u64) -> (r: String)
    ensures
        r@ == key_prefix() + id@ + seq![':'] + decimal(generation as nat),
{
    proof {
        reveal_strlit("gameoflife:iteration:");
        reveal_strlit(":");
    }
    let mut key = String::from_str("gameoflife:iteration:");
    key.append(id);
    key.append(":");
    let digits = decimal_string(generation);
    key.append(digits.as_str());
    key
}

/// A sink for generation snapshots.
///
/// `history` is the sequence of `(generation, snapshot)` pairs handed to
/// `record` so far; each call appends exactly its own pair.
pub trait Recorder {
    spec fn history(&self) -> Seq<(u64, GridModel)>;

    fn record(&mut self, generation: u64, world: &InMemWorld)
        requires
            world@.wf(),
        ensures
            final(self).history() == old(self).history().push((generation, world@)),
    ;
}

/// A recorder that stores nothing.
pub struct StubRecorder {
    calls: Ghost<Seq<(u64, GridModel)>>,
}

impl StubRecorder {
    pub fn new() -> (r: Self)
        ensures
            r.history() == Seq::<(u64, GridModel)>::empty(),
    {
        StubRecorder { calls: Ghost(Seq::empty()) }
    }
}

impl Recorder for StubRecorder {
    closed spec fn history(&self) -> Seq<(u64, GridModel)> {
        self.calls@
    }

    fn record(&mut self, generation: u64, world: &InMemWorld) {
        self.calls = Ghost(self.calls@.push((generation, world@)));
    }
}

/// A recorder that keeps an independent copy of every snapshot in memory.
pub struct MemoryRecorder {
    data: Vec<(u64, InMemWorld)>,
}

impl MemoryRecorder {
    pub fn new() -> (r: Self)
        ensures
            r.history() == Seq::<(u64, GridModel)>::empty(),
    {
        MemoryRecorder { data: Vec::new() }
    }

    /// The recorded pairs, oldest first.
    pub fn records(&self) -> (r: &Vec<(u64, InMemWorld)>)
        ensures
            r@.len() == self.history().len(),
            forall|i: int|
                0 <= i < r@.len() ==> (#[trigger] r@[i]).0 == self.history()[i].0 && r@[i].1@
                    == self.history()[i].1,
    {
        &self.data
    }
}

impl Recorder for MemoryRecorder {
    closed spec fn history(&self) -> Seq<(u64, GridModel)> {
        self.data@.map_values(|p: (u64, InMemWorld)| (p.0, p.1@))
    }

    fn record(&mut self, generation: u64, world: &InMemWorld) {
        let snapshot = world.duplicate();
        self.data.push((generation, snapshot));
        assert(self.history() =~= old(self).history().push((generation, world@)));
    }
}

} // verus!
