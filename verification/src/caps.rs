//! Small fixed-universe sets: discovered protocol capabilities and extension permissions.

use vstd::prelude::*;

verus! {

/// XMPP capability that must be discovered before its UI action is available.
#[derive(Clone, Copy, Debug, PartialEq, Eq, PartialOrd, Ord, Hash, Structural)]
pub enum ProtocolCapability {
    MultiUserChat,
    MessageArchiveManagement,
    StreamManagement,
    HttpFileUpload,
    Omemo,
    PushNotifications,
    Receipts,
    ChatMarkers,
    ChatStates,
    MessageReactions,
    MessageCorrections,
    MessageReplies,
    SharedPins,
}

/// Every capability, in declaration order.
pub open spec fn all_capabilities() -> Seq<ProtocolCapability> {
    seq![
        ProtocolCapability::MultiUserChat,
        ProtocolCapability::MessageArchiveManagement,
        ProtocolCapability::StreamManagement,
        ProtocolCapability::HttpFileUpload,
        ProtocolCapability::Omemo,
        ProtocolCapability::PushNotifications,
        ProtocolCapability::Receipts,
        ProtocolCapability::ChatMarkers,
        ProtocolCapability::ChatStates,
        ProtocolCapability::MessageReactions,
        ProtocolCapability::MessageCorrections,
        ProtocolCapability::MessageReplies,
        ProtocolCapability::SharedPins,
    ]
}

impl ProtocolCapability {
    /// Position of the capability in declaration order.
    pub open spec fn rank(self) -> u16 {
        match self {
            ProtocolCapability::MultiUserChat => 0,
            ProtocolCapability::MessageArchiveManagement => 1,
            ProtocolCapability::StreamManagement => 2,
            ProtocolCapability::HttpFileUpload => 3,
            ProtocolCapability::Omemo => 4,
            ProtocolCapability::PushNotifications => 5,
            ProtocolCapability::Receipts => 6,
            ProtocolCapability::ChatMarkers => 7,
            ProtocolCapability::ChatStates => 8,
            ProtocolCapability::MessageReactions => 9,
            ProtocolCapability::MessageCorrections => 10,
            ProtocolCapability::MessageReplies => 11,
            ProtocolCapability::SharedPins => 12,
        }
    }

    /// The executable rank.
    pub fn index(self) -> (r: u16)
        ensures
            r == self.rank(),
            r < 13,
    {
        match self {
            ProtocolCapability::MultiUserChat => 0,
            ProtocolCapability::MessageArchiveManagement => 1,
            ProtocolCapability::StreamManagement => 2,
            ProtocolCapability::HttpFileUpload => 3,
            ProtocolCapability::Omemo => 4,
            ProtocolCapability::PushNotifications => 5,
            ProtocolCapability::Receipts => 6,
            ProtocolCapability::ChatMarkers => 7,
            ProtocolCapability::ChatStates => 8,
            ProtocolCapability::MessageReactions => 9,
            ProtocolCapability::MessageCorrections => 10,
            ProtocolCapability::MessageReplies => 11,
            ProtocolCapability::SharedPins => 12,
        }
    }
}

/// Whether bit `i` of `bits` is set.
pub open spec fn bit_set(bits: u16, i: u16) -> bool {
    (bits >> i) & 1u16 == 1u16
}

proof fn lemma_bit_insert(bits: u16, i: u16, j: u16)
    requires
        i < 16,
        j < 16,
    ensures
        bit_set(bits | (1u16 << i), j) == (i == j || bit_set(bits, j)),
{
    assert(bit_set(bits | (1u16 << i), j) == (i == j || bit_set(bits, j))) by (bit_vector)
        requires
            i < 16,
            j < 16,
    ;
}

proof fn lemma_bit_empty(j: u16)
    requires
        j < 16,
    ensures
        !bit_set(0u16, j),
{
    assert(!bit_set(0u16, j)) by (bit_vector)
        requires
            j < 16,
    ;
}

/// A set of discovered capabilities.
#[derive(Clone, Copy, Debug, PartialEq, Eq, Hash, Structural)]
pub struct CapabilitySet {
    bits: u16,
}

impl View for CapabilitySet {
    type V = Set<ProtocolCapability>;

    closed spec fn view(&self) -> Set<ProtocolCapability> {
        Set::new(|c: ProtocolCapability| bit_set(self.bits, c.rank()))
    }
}

impl CapabilitySet {
    /// The empty set.
    pub fn new() -> (r: Self)
        ensures
            r@ == Set::<ProtocolCapability>::empty(),
    {
        let r = CapabilitySet { bits: 0 };
        proof {
            assert forall|c: ProtocolCapability| !r@.contains(c) by {
                lemma_bit_empty(c.rank());
            }
            assert(r@ =~= Set::<ProtocolCapability>::empty());
        }
        r
    }

    /// Whether `capability` is in the set.
    pub fn contains(&self, capability: ProtocolCapability) -> (r: bool)
        ensures
            r == self@.contains(capability),
    {
        let i = capability.index();
        (self.bits >> i) & 1u16 == 1u16
    }

    /// Adds `capability` to the set.
    pub fn insert(&mut self, capability: ProtocolCapability)
        ensures
            final(self)@ == old(self)@.insert(capability),
    {
        let i = capability.index();
        let old_bits = self.bits;
        self.bits = self.bits | (1u16 << i);
        proof {
            assert forall|c: ProtocolCapability| #[trigger]
                self@.contains(c) == old(self)@.insert(capability).contains(c) by {
                lemma_bit_insert(old_bits, i, c.rank());
            }
            assert(self@ =~= old(self)@.insert(capability));
        }
    }

    /// Adds every capability of `other`.
    pub fn extend(&mut self, other: &CapabilitySet)
        ensures
            final(self)@ == old(self)@.union(other@),
    {
        let ghost start = self@;
        let all = capability_list();
        let mut i: usize = 0;
        while i < all.len()
            invariant
                0 <= i <= all.len(),
                all@ == all_capabilities(),
                self@ == start.union(other@.filter(|c: ProtocolCapability| c.rank() < i)),
            decreases all.len() - i,
        {
            let c = all[i];
            let ghost before = self@;
            if other.contains(c) {
                self.insert(c);
            }
            proof {
                assert(c.rank() == i);
                assert(self@ =~= start.union(
                    other@.filter(|d: ProtocolCapability| d.rank() < i + 1),
                ));
            }
            i = i + 1;
        }
        proof {
            assert(self@ =~= start.union(other@));
        }
    }

    /// Builds a set from a list of capabilities.
    pub fn from_slice(items: &[ProtocolCapability]) -> (r: Self)
        ensures
            forall|c: ProtocolCapability| #[trigger] r@.contains(c) <==> items@.contains(c),
    {
        let mut r = CapabilitySet::new();
        let mut i: usize = 0;
        while i < items.len()
            invariant
                0 <= i <= items.len(),
                forall|c: ProtocolCapability| #[trigger]
                    r@.contains(c) <==> exists|k: int| 0 <= k < i && items@[k] == c,
            decreases items.len() - i,
        {
            r.insert(items[i]);
            proof {
                assert forall|c: ProtocolCapability| #[trigger]
                    r@.contains(c) <==> exists|k: int| 0 <= k < i + 1 && items@[k] == c by {
                    if c == items@[i as int] {
                        assert(items@[i as int] == c);
                    }
                }
            }
            i = i + 1;
        }
        r
    }

    /// Whether the set is empty.
    pub fn is_empty(&self) -> (r: bool)
        ensures
            r == (self@ == Set::<ProtocolCapability>::empty()),
    {
        let v = self.to_vec();
        proof {
            if v.len() == 0 {
                assert forall|c: ProtocolCapability| !self@.contains(c) by {
                    if self@.contains(c) {
                        let all = all_capabilities();
                        assert(all[c.rank() as int] == c);
                        all.lemma_filter_contains(
                            |d: ProtocolCapability| self@.contains(d),
                            c.rank() as int,
                        );
                    }
                }
                assert(self@ =~= Set::<ProtocolCapability>::empty());
            } else {
                assert(self@.contains(v@[0]));
            }
        }
        v.len() == 0
    }

    /// The members in declaration order (the order a `BTreeSet` iterates them).
    pub fn to_vec(&self) -> (r: Vec<ProtocolCapability>)
        ensures
            r@ == all_capabilities().filter(|c: ProtocolCapability| self@.contains(c)),
    {
        let all = capability_list();
        let mut r: Vec<ProtocolCapability> = Vec::new();
        let mut i: usize = 0;
        while i < all.len()
            invariant
                0 <= i <= all.len(),
                all@ == all_capabilities(),
                r@ == all@.subrange(0, i as int).filter(|c: ProtocolCapability| self@.contains(c)),
            decreases all.len() - i,
        {
            let c = all[i];
            if self.contains(c) {
                r.push(c);
            }
            proof {
                assert(all@.subrange(0, i + 1).drop_last() =~= all@.subrange(0, i as int));
                reveal_with_fuel(Seq::filter, 1);
            }
            i = i + 1;
        }
        proof {
            assert(all@.subrange(0, all.len() as int) =~= all@);
        }
        r
    }
}

/// Every capability, as a vector.
pub fn capability_list() -> (r: Vec<ProtocolCapability>)
    ensures
        r@ == all_capabilities(),
        forall|i: int| 0 <= i < r.len() ==> (#[trigger] r@[i]).rank() == i,
{
    let r = vec![
        ProtocolCapability::MultiUserChat,
        ProtocolCapability::MessageArchiveManagement,
        ProtocolCapability::StreamManagement,
        ProtocolCapability::HttpFileUpload,
        ProtocolCapability::Omemo,
        ProtocolCapability::PushNotifications,
        ProtocolCapability::Receipts,
        ProtocolCapability::ChatMarkers,
        ProtocolCapability::ChatStates,
        ProtocolCapability::MessageReactions,
        ProtocolCapability::MessageCorrections,
        ProtocolCapability::MessageReplies,
        ProtocolCapability::SharedPins,
    ];
    proof {
        assert(r@ =~= all_capabilities());
    }
    r
}

} // verus!
