use vstd::prelude::*;
use crate::address::Address;
use crate::ledger::TokenAccount;
use crate::state::Escrow;

verus! {

/// An outstanding escrow: its derived address, its record and its vault.
#[derive(Debug, Clone, Copy)]
pub struct Offer {
    pub address: Address,
    pub escrow: Escrow,
    pub vault: TokenAccount,
}

/// The offer stored under `key` in a list of offers; the latest one counts.
pub open spec fn offer_in(s: Seq<Offer>, key: Seq<u8>) -> Option<Offer>
    decreases s.len(),
{
    if s.len() == 0 {
        None
    } else if s.last().address@ == key {
        Some(s.last())
    } else {
        offer_in(s.drop_last(), key)
    }
}

/// No two offers of the list share an address.
pub open spec fn unique_keys(s: Seq<Offer>) -> bool {
    forall|i: int, j: int| 0 <= i < j < s.len() ==> s[i].address@ != s[j].address@
}

pub proof fn lemma_offer_absent(s: Seq<Offer>, key: Seq<u8>)
    requires
        forall|j: int| 0 <= j < s.len() ==> (#[trigger] s[j]).address@ != key,
    ensures
        offer_in(s, key) is None,
    decreases s.len(),
{
    if s.len() > 0 {
        assert(s.last() == s[s.len() - 1]);
        lemma_offer_absent(s.drop_last(), key);
    }
}

pub proof fn lemma_offer_found(s: Seq<Offer>, i: int)
    requires
        unique_keys(s),
        0 <= i < s.len(),
    ensures
        offer_in(s, s[i].address@) == Some(s[i]),
    decreases s.len(),
{
    if i < s.len() - 1 {
        assert(s.last() == s[s.len() - 1]);
        assert(s.drop_last()[i] == s[i]);
        lemma_offer_found(s.drop_last(), i);
    }
}

pub proof fn lemma_offer_push(s: Seq<Offer>, x: Offer, key: Seq<u8>)
    ensures
        offer_in(s.push(x), key) == if x.address@ == key {
            Some(x)
        } else {
            offer_in(s, key)
        },
{
    assert(s.push(x).drop_last() =~= s);
}

pub proof fn lemma_offer_remove(s: Seq<Offer>, i: int, key: Seq<u8>)
    requires
        unique_keys(s),
        0 <= i < s.len(),
    ensures
        offer_in(s.remove(i), key) == if s[i].address@ == key {
            None
        } else {
            offer_in(s, key)
        },
        unique_keys(s.remove(i)),
    decreases s.len(),
{
    let t = s.remove(i);
    assert forall|a: int, b: int| 0 <= a < b < t.len() implies t[a].address@ != t[b].address@ by {
        let a2 = if a < i { a } else { a + 1 };
        let b2 = if b < i { b } else { b + 1 };
        assert(t[a] == s[a2] && t[b] == s[b2]);
    }
    if i == s.len() - 1 {
        assert(t =~= s.drop_last());
        if s[i].address@ == key {
            assert forall|j: int| 0 <= j < t.len() implies (#[trigger] t[j]).address@ != key by {
                assert(t[j] == s[j]);
            }
            lemma_offer_absent(t, key);
        }
    } else {
        assert(t.last() == s.last());
        assert(t.drop_last() =~= s.drop_last().remove(i));
        lemma_offer_remove(s.drop_last(), i, key);
    }
}

} // verus!
