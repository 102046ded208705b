use vstd::prelude::*;

verus! {

/// Red, green and blue shares of a hue before the value offset is added.
///
/// The hue circle is cut into six sectors of sixty degrees, numbered from
/// red.  In each sector one channel carries the chroma, one the secondary
/// share and one nothing; a sector number of five or more counts as the
/// last sector.
pub open spec fn spec_sector_shares<T>(sector: u8, chroma: T, second: T, none: T) -> (T, T, T) {
    if sector == 0 {
        (chroma, second, none)
    } else if sector == 1 {
        (second, chroma, none)
    } else if sector == 2 {
        (none, chroma, second)
    } else if sector == 3 {
        (none, second, chroma)
    } else if sector == 4 {
        (second, none, chroma)
    } else {
        (chroma, none, second)
    }
}

/// Red, green and blue shares of a hue in the given sector.
pub fn sector_shares<T: Copy>(sector: u8, chroma: T, second: T, none: T) -> (shares: (T, T, T))
    ensures
        shares == spec_sector_shares(sector, chroma, second, none),
{
    if sector == 0 {
        (chroma, second, none)
    } else if sector == 1 {
        (second, chroma, none)
    } else if sector == 2 {
        (none, chroma, second)
    } else if sector == 3 {
        (none, second, chroma)
    } else if sector == 4 {
        (second, none, chroma)
    } else {
        (chroma, none, second)
    }
}

/// Without chroma every hue is grey: where the chroma and the secondary
/// share are both nothing, so are all three shares, whatever the sector.
pub proof fn lemma_no_chroma_is_grey<T>(sector: u8, none: T)
    ensures
        spec_sector_shares(sector, none, none, none) == (none, none, none),
{
}

/// Each sector hands out the chroma, the secondary share and nothing once
/// each: the three shares are a rearrangement of the three inputs.
pub proof fn lemma_shares_rearrange<T>(sector: u8, chroma: T, second: T, none: T)
    ensures
        ({
            let s = spec_sector_shares(sector, chroma, second, none);
            seq![s.0, s.1, s.2].to_multiset() == seq![chroma, second, none].to_multiset()
        }),
{
    let s = spec_sector_shares(sector, chroma, second, none);
    let got = seq![s.0, s.1, s.2];
    let want = seq![chroma, second, none];
    assert forall|v: T| got.to_multiset().count(v) == want.to_multiset().count(v) by {
        broadcast use vstd::seq_lib::group_to_multiset_ensures;
        lemma_count_three(got, v);
        lemma_count_three(want, v);
    }
    assert(got.to_multiset() =~= want.to_multiset());
}

/// How often a value occurs among three.
proof fn lemma_count_three<T>(s: Seq<T>, v: T)
    requires
        s.len() == 3,
    ensures
        s.to_multiset().count(v) == (if s[0] == v { 1int } else { 0 }) + (if s[1] == v { 1int } else { 0 })
            + (if s[2] == v { 1int } else { 0 }),
{
    broadcast use vstd::seq_lib::group_to_multiset_ensures;
    let a = Seq::<T>::empty().push(s[0]);
    let b = a.push(s[1]);
    let c = b.push(s[2]);
    assert(c =~= s);
    assert(Seq::<T>::empty().to_multiset().count(v) == 0);
}

} // verus!
