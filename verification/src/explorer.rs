//! A read-side cache of mix-node records, looked up by identity key.

use vstd::prelude::*;

verus! {

/// A mix node as the cache sees it: its identity key and where it listens.
#[derive(Debug)]
pub struct MixNode {
    pub identity_key: String,
    pub host: String,
}

/// The mathematical value of a [`MixNode`].
pub struct MixNodeV {
    pub identity_key: Seq<char>,
    pub host: Seq<char>,
}

impl View for MixNode {
    type V = MixNodeV;

    open spec fn view(&self) -> MixNodeV {
        MixNodeV { identity_key: self.identity_key@, host: self.host@ }
    }
}

/// A bonded mix node: the owner account and the node it pledged.
#[derive(Debug)]
pub struct MixNodeBond {
    pub owner: String,
    pub mix_node: MixNode,
}

/// The mathematical value of a [`MixNodeBond`].
pub struct MixNodeBondV {
    pub owner: Seq<char>,
    pub mix_node: MixNodeV,
}

impl View for MixNodeBond {
    type V = MixNodeBondV;

    open spec fn view(&self) -> MixNodeBondV {
        MixNodeBondV { owner: self.owner@, mix_node: self.mix_node@ }
    }
}

impl Clone for MixNodeBond {
    fn clone(&self) -> (b: MixNodeBond)
        ensures
            b@ == self@,
    {
        MixNodeBond {
            owner: self.owner.clone(),
            mix_node: MixNode {
                identity_key: self.mix_node.identity_key.clone(),
                host: self.mix_node.host.clone(),
            },
        }
    }
}

/// The read-side state: the currently known mix-node bonds.
#[derive(Debug)]
pub struct ExplorerApiState {
    pub mix_nodes: Vec<MixNodeBond>,
}

impl ExplorerApiState {
    pub fn new(mix_nodes: Vec<MixNodeBond>) -> (s: ExplorerApiState)
        ensures
            s.mix_nodes@ == mix_nodes@,
    {
        ExplorerApiState { mix_nodes }
    }

    /// The first known bond whose node has the given identity key, if any.
    pub fn get_mix_node(&self, pubkey: &str) -> (r: Option<MixNodeBond>)
        ensures
            match r {
                Option::Some(b) => exists|i: int|
                    0 <= i < self.mix_nodes@.len() && (#[trigger] self.mix_nodes@[i])@.mix_node.identity_key
                        == pubkey@ && b@ == self.mix_nodes@[i]@,
                Option::None => forall|i: int|
                    0 <= i < self.mix_nodes@.len()
                        ==> (#[trigger] self.mix_nodes@[i])@.mix_node.identity_key != pubkey@,
            },
    {
        let n = self.mix_nodes.len();
        let mut i: usize = 0;
        let key = pubkey.to_owned();
        while i < n
            invariant
                n == self.mix_nodes@.len(),
                i <= n,
                key@ == pubkey@,
                forall|j: int|
                    0 <= j < i ==> (#[trigger] self.mix_nodes@[j])@.mix_node.identity_key
                        != pubkey@,
            decreases n - i,
        {
            if self.mix_nodes[i].mix_node.identity_key == key {
                return Option::Some(self.mix_nodes[i].clone());
            }
            i += 1;
        }
        Option::None
    }
}

} // verus!
