//! The two award tables shipped with the library: the full production
//! table and the small demonstration table. Both are opaque static
//! assets — the tier a split falls into follows a game-design rule that
//! is not derivable from the data — so their contracts pin the entries
//! verbatim.

use vstd::prelude::*;
use crate::awards::AwardTable;

verus! {

/// The entries of the demonstration table, in insertion order.
pub open spec fn demo_pairs() -> Seq<(Seq<char>, u32)> {
    seq![
        ("1-2-3"@, 50u32),
        ("2-3"@, 75u32),
        ("3-6"@, 100u32),
        ("4-5"@, 125u32),
        ("4-5-6"@, 150u32),
        ("5-6"@, 175u32),
        ("4-7-10"@, 200u32),
        ("6-7-10"@, 225u32),
        ("7-10"@, 250u32),
    ]
}

/// The small table used by the demonstration ledger.
pub fn demo_award_table() -> (r: AwardTable)
    ensures
        r.wf(),
        r@ == demo_pairs(),
        r@.len() == 9,
        r.spec_get("1-2-3"@) == Some(50u32),
        r.spec_get("2-3"@) == Some(75u32),
        r.spec_get("3-6"@) == Some(100u32),
        r.spec_get("4-5"@) == Some(125u32),
        r.spec_get("4-5-6"@) == Some(150u32),
        r.spec_get("5-6"@) == Some(175u32),
        r.spec_get("4-7-10"@) == Some(200u32),
        r.spec_get("6-7-10"@) == Some(225u32),
        r.spec_get("7-10"@) == Some(250u32),
{
    let mut t = AwardTable::new();
    proof {
        reveal_strlit("1-2-3");
        reveal_strlit("2-3");
        reveal_strlit("3-6");
        reveal_strlit("4-5");
        reveal_strlit("4-5-6");
        reveal_strlit("5-6");
        reveal_strlit("4-7-10");
        reveal_strlit("6-7-10");
        reveal_strlit("7-10");
        assert("1-2-3"@ =~= seq!['1', '-', '2', '-', '3']);
        assert("2-3"@ =~= seq!['2', '-', '3']);
        assert("3-6"@ =~= seq!['3', '-', '6']);
        assert("4-5"@ =~= seq!['4', '-', '5']);
        assert("4-5-6"@ =~= seq!['4', '-', '5', '-', '6']);
        assert("5-6"@ =~= seq!['5', '-', '6']);
        assert("4-7-10"@ =~= seq!['4', '-', '7', '-', '1', '0']);
        assert("6-7-10"@ =~= seq!['6', '-', '7', '-', '1', '0']);
        assert("7-10"@ =~= seq!['7', '-', '1', '0']);
    }
    t.insert("1-2-3".to_owned(), 50);
    t.insert("2-3".to_owned(), 75);
    t.insert("3-6".to_owned(), 100);
    t.insert("4-5".to_owned(), 125);
    t.insert("4-5-6".to_owned(), 150);
    t.insert("5-6".to_owned(), 175);
    t.insert("4-7-10".to_owned(), 200);
    t.insert("6-7-10".to_owned(), 225);
    t.insert("7-10".to_owned(), 250);
    proof {
        assert(t@ =~= demo_pairs());
    }
    t
}

/// The entries of the production table, in insertion order.
pub open spec fn production_pairs() -> Seq<(Seq<char>, u32)> {
    production_pairs_a() + production_pairs_b() + production_pairs_c() + production_pairs_d()
        + production_pairs_e()
}

/// The full production table: every listed split bucketed into the 10%,
/// 30% or 50% payout tier.
pub fn production_award_table() -> (r: AwardTable)
    ensures
        r.wf(),
        r@ == production_pairs(),
        r@.len() == 459,
        forall|i: int|
            0 <= i < r@.len() ==> ((#[trigger] r@[i]).1 == 100 || r@[i].1 == 300 || r@[i].1
                == 500),
{
    let mut t = AwardTable::new();
    production_entries_a(&mut t);
    production_entries_b(&mut t);
    production_entries_c(&mut t);
    production_entries_d(&mut t);
    production_entries_e(&mut t);
    proof {
        assert(t@ =~= Seq::<(Seq<char>, u32)>::empty() + production_pairs_a()
            + production_pairs_b() + production_pairs_c() + production_pairs_d()
            + production_pairs_e());
        assert(t@ =~= production_pairs());
    }
    t
}


pub open spec fn production_pairs_a() -> Seq<(Seq<char>, u32)> {
    seq![
        ("2-3"@, 100u32),
        ("2-7"@, 100u32),
        ("2-9"@, 100u32),
        ("3-10"@, 100u32),
        ("3-8"@, 100u32),
        ("4-5"@, 100u32),
        ("5-6"@, 100u32),
        ("7-8"@, 100u32),
        ("8-9"@, 100u32),
        ("9-10"@, 100u32),
        ("2-10"@, 300u32),
        ("2-3-10"@, 300u32),
        ("2-3-4"@, 300u32),
        ("2-3-4-10"@, 300u32),
        ("2-3-4-5"@, 300u32),
        ("2-3-4-5-10"@, 300u32),
        ("2-3-4-5-6"@, 300u32),
        ("2-3-4-5-6-10"@, 300u32),
        ("2-3-4-5-6-7"@, 300u32),
        ("2-3-4-5-6-7-10"@, 300u32),
        ("2-3-4-5-6-7-8"@, 300u32),
        ("2-3-4-5-6-7-8-10"@, 300u32),
        ("2-3-4-5-6-7-8-9"@, 300u32),
        ("2-3-4-5-6-7-8-9-10"@, 300u32),
        ("2-3-4-5-6-7-9"@, 300u32),
        ("2-3-4-5-6-7-9-10"@, 300u32),
        ("2-3-4-5-6-8"@, 300u32),
        ("2-3-4-5-6-8-10"@, 300u32),
        ("2-3-4-5-6-8-9"@, 300u32),
        ("2-3-4-5-6-8-9-10"@, 300u32),
        ("2-3-4-5-6-9"@, 300u32),
        ("2-3-4-5-6-9-10"@, 300u32),
        ("2-3-4-5-7"@, 300u32),
        ("2-3-4-5-7-10"@, 300u32),
        ("2-3-4-5-7-8"@, 300u32),
        ("2-3-4-5-7-8-10"@, 300u32),
        ("2-3-4-5-7-8-9"@, 300u32),
        ("2-3-4-5-7-8-9-10"@, 300u32),
        ("2-3-4-5-7-9"@, 300u32),
        ("2-3-4-5-7-9-10"@, 300u32),
        ("2-3-4-5-8"@, 300u32),
        ("2-3-4-5-8-10"@, 300u32),
        ("2-3-4-5-8-9"@, 300u32),
        ("2-3-4-5-8-9-10"@, 300u32),
        ("2-3-4-5-9"@, 300u32),
        ("2-3-4-5-9-10"@, 300u32),
        ("2-3-4-6"@, 300u32),
        ("2-3-4-6-10"@, 300u32),
        ("2-3-4-6-7"@, 300u32),
        ("2-3-4-6-7-10"@, 300u32),
        ("2-3-4-6-7-8"@, 300u32),
        ("2-3-4-6-7-8-10"@, 300u32),
        ("2-3-4-6-7-8-9"@, 300u32),
        ("2-3-4-6-7-8-9-10"@, 300u32),
        ("2-3-4-6-7-9"@, 300u32),
        ("2-3-4-6-7-9-10"@, 300u32),
        ("2-3-4-6-8"@, 300u32),
        ("2-3-4-6-8-10"@, 300u32),
        ("2-3-4-6-8-9"@, 300u32),
        ("2-3-4-6-8-9-10"@, 300u32),
        ("2-3-4-6-9"@, 300u32),
        ("2-3-4-6-9-10"@, 300u32),
        ("2-3-4-7"@, 300u32),
        ("2-3-4-7-10"@, 300u32),
        ("2-3-4-7-8"@, 300u32),
        ("2-3-4-7-8-10"@, 300u32),
        ("2-3-4-7-8-9"@, 300u32),
        ("2-3-4-7-8-9-10"@, 300u32),
        ("2-3-4-7-9"@, 300u32),
        ("2-3-4-7-9-10"@, 300u32),
        ("2-3-4-8"@, 300u32),
        ("2-3-4-8-10"@, 300u32),
        ("2-3-4-8-9"@, 300u32),
        ("2-3-4-8-9-10"@, 300u32),
        ("2-3-4-9"@, 300u32),
        ("2-3-4-9-10"@, 300u32),
        ("2-3-5"@, 300u32),
        ("2-3-5-10"@, 300u32),
        ("2-3-5-6"@, 300u32),
        ("2-3-5-6-10"@, 300u32),
        ("2-3-5-6-7"@, 300u32),
        ("2-3-5-6-7-10"@, 300u32),
        ("2-3-5-6-7-8"@, 300u32),
        ("2-3-5-6-7-8-10"@, 300u32),
        ("2-3-5-6-7-8-9"@, 300u32),
        ("2-3-5-6-7-8-9-10"@, 300u32),
        ("2-3-5-6-7-9"@, 300u32),
        ("2-3-5-6-7-9-10"@, 300u32),
        ("2-3-5-6-8"@, 300u32),
        ("2-3-5-6-8-10"@, 300u32),
        ("2-3-5-6-8-9"@, 300u32),
        ("2-3-5-6-8-9-10"@, 300u32),
    ]
}

#[verifier::rlimit(100)]
fn production_entries_a(t: &mut AwardTable)
    requires
        old(t).wf(),
    ensures
        final(t).wf(),
        final(t)@ == old(t)@ + production_pairs_a(),
{
    t.insert("2-3".to_owned(), 100);
    t.insert("2-7".to_owned(), 100);
    t.insert("2-9".to_owned(), 100);
    t.insert("3-10".to_owned(), 100);
    t.insert("3-8".to_owned(), 100);
    t.insert("4-5".to_owned(), 100);
    t.insert("5-6".to_owned(), 100);
    t.insert("7-8".to_owned(), 100);
    t.insert("8-9".to_owned(), 100);
    t.insert("9-10".to_owned(), 100);
    t.insert("2-10".to_owned(), 300);
    t.insert("2-3-10".to_owned(), 300);
    t.insert("2-3-4".to_owned(), 300);
    t.insert("2-3-4-10".to_owned(), 300);
    t.insert("2-3-4-5".to_owned(), 300);
    t.insert("2-3-4-5-10".to_owned(), 300);
    t.insert("2-3-4-5-6".to_owned(), 300);
    t.insert("2-3-4-5-6-10".to_owned(), 300);
    t.insert("2-3-4-5-6-7".to_owned(), 300);
    t.insert("2-3-4-5-6-7-10".to_owned(), 300);
    t.insert("2-3-4-5-6-7-8".to_owned(), 300);
    t.insert("2-3-4-5-6-7-8-10".to_owned(), 300);
    t.insert("2-3-4-5-6-7-8-9".to_owned(), 300);
    t.insert("2-3-4-5-6-7-8-9-10".to_owned(), 300);
    t.insert("2-3-4-5-6-7-9".to_owned(), 300);
    t.insert("2-3-4-5-6-7-9-10".to_owned(), 300);
    t.insert("2-3-4-5-6-8".to_owned(), 300);
    t.insert("2-3-4-5-6-8-10".to_owned(), 300);
    t.insert("2-3-4-5-6-8-9".to_owned(), 300);
    t.insert("2-3-4-5-6-8-9-10".to_owned(), 300);
    t.insert("2-3-4-5-6-9".to_owned(), 300);
    t.insert("2-3-4-5-6-9-10".to_owned(), 300);
    t.insert("2-3-4-5-7".to_owned(), 300);
    t.insert("2-3-4-5-7-10".to_owned(), 300);
    t.insert("2-3-4-5-7-8".to_owned(), 300);
    t.insert("2-3-4-5-7-8-10".to_owned(), 300);
    t.insert("2-3-4-5-7-8-9".to_owned(), 300);
    t.insert("2-3-4-5-7-8-9-10".to_owned(), 300);
    t.insert("2-3-4-5-7-9".to_owned(), 300);
    t.insert("2-3-4-5-7-9-10".to_owned(), 300);
    t.insert("2-3-4-5-8".to_owned(), 300);
    t.insert("2-3-4-5-8-10".to_owned(), 300);
    t.insert("2-3-4-5-8-9".to_owned(), 300);
    t.insert("2-3-4-5-8-9-10".to_owned(), 300);
    t.insert("2-3-4-5-9".to_owned(), 300);
    t.insert("2-3-4-5-9-10".to_owned(), 300);
    t.insert("2-3-4-6".to_owned(), 300);
    t.insert("2-3-4-6-10".to_owned(), 300);
    t.insert("2-3-4-6-7".to_owned(), 300);
    t.insert("2-3-4-6-7-10".to_owned(), 300);
    t.insert("2-3-4-6-7-8".to_owned(), 300);
    t.insert("2-3-4-6-7-8-10".to_owned(), 300);
    t.insert("2-3-4-6-7-8-9".to_owned(), 300);
    t.insert("2-3-4-6-7-8-9-10".to_owned(), 300);
    t.insert("2-3-4-6-7-9".to_owned(), 300);
    t.insert("2-3-4-6-7-9-10".to_owned(), 300);
    t.insert("2-3-4-6-8".to_owned(), 300);
    t.insert("2-3-4-6-8-10".to_owned(), 300);
    t.insert("2-3-4-6-8-9".to_owned(), 300);
    t.insert("2-3-4-6-8-9-10".to_owned(), 300);
    t.insert("2-3-4-6-9".to_owned(), 300);
    t.insert("2-3-4-6-9-10".to_owned(), 300);
    t.insert("2-3-4-7".to_owned(), 300);
    t.insert("2-3-4-7-10".to_owned(), 300);
    t.insert("2-3-4-7-8".to_owned(), 300);
    t.insert("2-3-4-7-8-10".to_owned(), 300);
    t.insert("2-3-4-7-8-9".to_owned(), 300);
    t.insert("2-3-4-7-8-9-10".to_owned(), 300);
    t.insert("2-3-4-7-9".to_owned(), 300);
    t.insert("2-3-4-7-9-10".to_owned(), 300);
    t.insert("2-3-4-8".to_owned(), 300);
    t.insert("2-3-4-8-10".to_owned(), 300);
    t.insert("2-3-4-8-9".to_owned(), 300);
    t.insert("2-3-4-8-9-10".to_owned(), 300);
    t.insert("2-3-4-9".to_owned(), 300);
    t.insert("2-3-4-9-10".to_owned(), 300);
    t.insert("2-3-5".to_owned(), 300);
    t.insert("2-3-5-10".to_owned(), 300);
    t.insert("2-3-5-6".to_owned(), 300);
    t.insert("2-3-5-6-10".to_owned(), 300);
    t.insert("2-3-5-6-7".to_owned(), 300);
    t.insert("2-3-5-6-7-10".to_owned(), 300);
    t.insert("2-3-5-6-7-8".to_owned(), 300);
    t.insert("2-3-5-6-7-8-10".to_owned(), 300);
    t.insert("2-3-5-6-7-8-9".to_owned(), 300);
    t.insert("2-3-5-6-7-8-9-10".to_owned(), 300);
    t.insert("2-3-5-6-7-9".to_owned(), 300);
    t.insert("2-3-5-6-7-9-10".to_owned(), 300);
    t.insert("2-3-5-6-8".to_owned(), 300);
    t.insert("2-3-5-6-8-10".to_owned(), 300);
    t.insert("2-3-5-6-8-9".to_owned(), 300);
    t.insert("2-3-5-6-8-9-10".to_owned(), 300);
    proof {
        assert(final(t)@ =~= old(t)@ + production_pairs_a());
    }
}


pub open spec fn production_pairs_b() -> Seq<(Seq<char>, u32)> {
    seq![
        ("2-3-5-6-9"@, 300u32),
        ("2-3-5-6-9-10"@, 300u32),
        ("2-3-5-7"@, 300u32),
        ("2-3-5-7-10"@, 300u32),
        ("2-3-5-7-8"@, 300u32),
        ("2-3-5-7-8-10"@, 300u32),
        ("2-3-5-7-8-9"@, 300u32),
        ("2-3-5-7-8-9-10"@, 300u32),
        ("2-3-5-7-9"@, 300u32),
        ("2-3-5-7-9-10"@, 300u32),
        ("2-3-5-8"@, 300u32),
        ("2-3-5-8-10"@, 300u32),
        ("2-3-5-8-9"@, 300u32),
        ("2-3-5-8-9-10"@, 300u32),
        ("2-3-5-9"@, 300u32),
        ("2-3-5-9-10"@, 300u32),
        ("2-3-6"@, 300u32),
        ("2-3-6-10"@, 300u32),
        ("2-3-6-7"@, 300u32),
        ("2-3-6-7-10"@, 300u32),
        ("2-3-6-7-8"@, 300u32),
        ("2-3-6-7-8-10"@, 300u32),
        ("2-3-6-7-8-9"@, 300u32),
        ("2-3-6-7-8-9-10"@, 300u32),
        ("2-3-6-7-9"@, 300u32),
        ("2-3-6-7-9-10"@, 300u32),
        ("2-3-6-8"@, 300u32),
        ("2-3-6-8-10"@, 300u32),
        ("2-3-6-8-9"@, 300u32),
        ("2-3-6-8-9-10"@, 300u32),
        ("2-3-6-9"@, 300u32),
        ("2-3-6-9-10"@, 300u32),
        ("2-3-7"@, 300u32),
        ("2-3-7-10"@, 300u32),
        ("2-3-7-8"@, 300u32),
        ("2-3-7-8-10"@, 300u32),
        ("2-3-7-8-9"@, 300u32),
        ("2-3-7-8-9-10"@, 300u32),
        ("2-3-7-9"@, 300u32),
        ("2-3-7-9-10"@, 300u32),
        ("2-3-8"@, 300u32),
        ("2-3-8-10"@, 300u32),
        ("2-3-8-9"@, 300u32),
        ("2-3-8-9-10"@, 300u32),
        ("2-3-9"@, 300u32),
        ("2-3-9-10"@, 300u32),
        ("2-4-10"@, 300u32),
        ("2-4-5-10"@, 300u32),
        ("2-4-5-6"@, 300u32),
        ("2-4-5-6-10"@, 300u32),
        ("2-4-5-6-7"@, 300u32),
        ("2-4-5-6-7-10"@, 300u32),
        ("2-4-5-6-7-8"@, 300u32),
        ("2-4-5-6-7-8-10"@, 300u32),
        ("2-4-5-6-7-8-9"@, 300u32),
        ("2-4-5-6-7-8-9-10"@, 300u32),
        ("2-4-5-6-7-9"@, 300u32),
        ("2-4-5-6-7-9-10"@, 300u32),
        ("2-4-5-6-8"@, 300u32),
        ("2-4-5-6-8-10"@, 300u32),
        ("2-4-5-6-8-9"@, 300u32),
        ("2-4-5-6-8-9-10"@, 300u32),
        ("2-4-5-6-9"@, 300u32),
        ("2-4-5-6-9-10"@, 300u32),
        ("2-4-5-7-10"@, 300u32),
        ("2-4-5-7-8-10"@, 300u32),
        ("2-4-5-7-8-9-10"@, 300u32),
        ("2-4-5-7-9-10"@, 300u32),
        ("2-4-5-8-10"@, 300u32),
        ("2-4-5-8-9-10"@, 300u32),
        ("2-4-5-9-10"@, 300u32),
        ("2-4-6"@, 300u32),
        ("2-4-6-10"@, 300u32),
        ("2-4-6-7"@, 300u32),
        ("2-4-6-7-10"@, 300u32),
        ("2-4-6-7-8"@, 300u32),
        ("2-4-6-7-8-10"@, 300u32),
        ("2-4-6-7-8-9"@, 300u32),
        ("2-4-6-7-8-9-10"@, 300u32),
        ("2-4-6-7-9"@, 300u32),
        ("2-4-6-7-9-10"@, 300u32),
        ("2-4-6-8"@, 300u32),
        ("2-4-6-8-10"@, 300u32),
        ("2-4-6-8-9"@, 300u32),
        ("2-4-6-8-9-10"@, 300u32),
        ("2-4-6-9"@, 300u32),
        ("2-4-6-9-10"@, 300u32),
        ("2-4-7-10"@, 300u32),
        ("2-4-7-8-10"@, 300u32),
        ("2-4-7-8-9"@, 300u32),
        ("2-4-7-8-9-10"@, 300u32),
        ("2-4-7-9"@, 300u32),
    ]
}

#[verifier::rlimit(100)]
fn production_entries_b(t: &mut AwardTable)
    requires
        old(t).wf(),
    ensures
        final(t).wf(),
        final(t)@ == old(t)@ + production_pairs_b(),
{
    t.insert("2-3-5-6-9".to_owned(), 300);
    t.insert("2-3-5-6-9-10".to_owned(), 300);
    t.insert("2-3-5-7".to_owned(), 300);
    t.insert("2-3-5-7-10".to_owned(), 300);
    t.insert("2-3-5-7-8".to_owned(), 300);
    t.insert("2-3-5-7-8-10".to_owned(), 300);
    t.insert("2-3-5-7-8-9".to_owned(), 300);
    t.insert("2-3-5-7-8-9-10".to_owned(), 300);
    t.insert("2-3-5-7-9".to_owned(), 300);
    t.insert("2-3-5-7-9-10".to_owned(), 300);
    t.insert("2-3-5-8".to_owned(), 300);
    t.insert("2-3-5-8-10".to_owned(), 300);
    t.insert("2-3-5-8-9".to_owned(), 300);
    t.insert("2-3-5-8-9-10".to_owned(), 300);
    t.insert("2-3-5-9".to_owned(), 300);
    t.insert("2-3-5-9-10".to_owned(), 300);
    t.insert("2-3-6".to_owned(), 300);
    t.insert("2-3-6-10".to_owned(), 300);
    t.insert("2-3-6-7".to_owned(), 300);
    t.insert("2-3-6-7-10".to_owned(), 300);
    t.insert("2-3-6-7-8".to_owned(), 300);
    t.insert("2-3-6-7-8-10".to_owned(), 300);
    t.insert("2-3-6-7-8-9".to_owned(), 300);
    t.insert("2-3-6-7-8-9-10".to_owned(), 300);
    t.insert("2-3-6-7-9".to_owned(), 300);
    t.insert("2-3-6-7-9-10".to_owned(), 300);
    t.insert("2-3-6-8".to_owned(), 300);
    t.insert("2-3-6-8-10".to_owned(), 300);
    t.insert("2-3-6-8-9".to_owned(), 300);
    t.insert("2-3-6-8-9-10".to_owned(), 300);
    t.insert("2-3-6-9".to_owned(), 300);
    t.insert("2-3-6-9-10".to_owned(), 300);
    t.insert("2-3-7".to_owned(), 300);
    t.insert("2-3-7-10".to_owned(), 300);
    t.insert("2-3-7-8".to_owned(), 300);
    t.insert("2-3-7-8-10".to_owned(), 300);
    t.insert("2-3-7-8-9".to_owned(), 300);
    t.insert("2-3-7-8-9-10".to_owned(), 300);
    t.insert("2-3-7-9".to_owned(), 300);
    t.insert("2-3-7-9-10".to_owned(), 300);
    t.insert("2-3-8".to_owned(), 300);
    t.insert("2-3-8-10".to_owned(), 300);
    t.insert("2-3-8-9".to_owned(), 300);
    t.insert("2-3-8-9-10".to_owned(), 300);
    t.insert("2-3-9".to_owned(), 300);
    t.insert("2-3-9-10".to_owned(), 300);
    t.insert("2-4-10".to_owned(), 300);
    t.insert("2-4-5-10".to_owned(), 300);
    t.insert("2-4-5-6".to_owned(), 300);
    t.insert("2-4-5-6-10".to_owned(), 300);
    t.insert("2-4-5-6-7".to_owned(), 300);
    t.insert("2-4-5-6-7-10".to_owned(), 300);
    t.insert("2-4-5-6-7-8".to_owned(), 300);
    t.insert("2-4-5-6-7-8-10".to_owned(), 300);
    t.insert("2-4-5-6-7-8-9".to_owned(), 300);
    t.insert("2-4-5-6-7-8-9-10".to_owned(), 300);
    t.insert("2-4-5-6-7-9".to_owned(), 300);
    t.insert("2-4-5-6-7-9-10".to_owned(), 300);
    t.insert("2-4-5-6-8".to_owned(), 300);
    t.insert("2-4-5-6-8-10".to_owned(), 300);
    t.insert("2-4-5-6-8-9".to_owned(), 300);
    t.insert("2-4-5-6-8-9-10".to_owned(), 300);
    t.insert("2-4-5-6-9".to_owned(), 300);
    t.insert("2-4-5-6-9-10".to_owned(), 300);
    t.insert("2-4-5-7-10".to_owned(), 300);
    t.insert("2-4-5-7-8-10".to_owned(), 300);
    t.insert("2-4-5-7-8-9-10".to_owned(), 300);
    t.insert("2-4-5-7-9-10".to_owned(), 300);
    t.insert("2-4-5-8-10".to_owned(), 300);
    t.insert("2-4-5-8-9-10".to_owned(), 300);
    t.insert("2-4-5-9-10".to_owned(), 300);
    t.insert("2-4-6".to_owned(), 300);
    t.insert("2-4-6-10".to_owned(), 300);
    t.insert("2-4-6-7".to_owned(), 300);
    t.insert("2-4-6-7-10".to_owned(), 300);
    t.insert("2-4-6-7-8".to_owned(), 300);
    t.insert("2-4-6-7-8-10".to_owned(), 300);
    t.insert("2-4-6-7-8-9".to_owned(), 300);
    t.insert("2-4-6-7-8-9-10".to_owned(), 300);
    t.insert("2-4-6-7-9".to_owned(), 300);
    t.insert("2-4-6-7-9-10".to_owned(), 300);
    t.insert("2-4-6-8".to_owned(), 300);
    t.insert("2-4-6-8-10".to_owned(), 300);
    t.insert("2-4-6-8-9".to_owned(), 300);
    t.insert("2-4-6-8-9-10".to_owned(), 300);
    t.insert("2-4-6-9".to_owned(), 300);
    t.insert("2-4-6-9-10".to_owned(), 300);
    t.insert("2-4-7-10".to_owned(), 300);
    t.insert("2-4-7-8-10".to_owned(), 300);
    t.insert("2-4-7-8-9".to_owned(), 300);
    t.insert("2-4-7-8-9-10".to_owned(), 300);
    t.insert("2-4-7-9".to_owned(), 300);
    proof {
        assert(final(t)@ =~= old(t)@ + production_pairs_b());
    }
}


pub open spec fn production_pairs_c() -> Seq<(Seq<char>, u32)> {
    seq![
        ("2-4-7-9-10"@, 300u32),
        ("2-4-8-10"@, 300u32),
        ("2-4-8-9"@, 300u32),
        ("2-4-8-9-10"@, 300u32),
        ("2-4-9"@, 300u32),
        ("2-4-9-10"@, 300u32),
        ("2-5-10"@, 300u32),
        ("2-5-6"@, 300u32),
        ("2-5-6-10"@, 300u32),
        ("2-5-6-7"@, 300u32),
        ("2-5-6-7-10"@, 300u32),
        ("2-5-6-7-8"@, 300u32),
        ("2-5-6-7-8-10"@, 300u32),
        ("2-5-6-7-8-9"@, 300u32),
        ("2-5-6-7-8-9-10"@, 300u32),
        ("2-5-6-7-9"@, 300u32),
        ("2-5-6-7-9-10"@, 300u32),
        ("2-5-6-8"@, 300u32),
        ("2-5-6-8-10"@, 300u32),
        ("2-5-6-8-9"@, 300u32),
        ("2-5-6-8-9-10"@, 300u32),
        ("2-5-6-9"@, 300u32),
        ("2-5-6-9-10"@, 300u32),
        ("2-5-7"@, 300u32),
        ("2-5-7-10"@, 300u32),
        ("2-5-7-8"@, 300u32),
        ("2-5-7-8-10"@, 300u32),
        ("2-5-7-8-9"@, 300u32),
        ("2-5-7-8-9-10"@, 300u32),
        ("2-5-7-9"@, 300u32),
        ("2-5-7-9-10"@, 300u32),
        ("2-5-8-10"@, 300u32),
        ("2-5-8-9-10"@, 300u32),
        ("2-5-9-10"@, 300u32),
        ("2-6"@, 300u32),
        ("2-6-10"@, 300u32),
        ("2-6-7"@, 300u32),
        ("2-6-7-10"@, 300u32),
        ("2-6-7-8"@, 300u32),
        ("2-6-7-8-10"@, 300u32),
        ("2-6-7-8-9"@, 300u32),
        ("2-6-7-8-9-10"@, 300u32),
        ("2-6-7-9"@, 300u32),
        ("2-6-7-9-10"@, 300u32),
        ("2-6-8"@, 300u32),
        ("2-6-8-10"@, 300u32),
        ("2-6-8-9"@, 300u32),
        ("2-6-8-9-10"@, 300u32),
        ("2-6-9"@, 300u32),
        ("2-6-9-10"@, 300u32),
        ("2-7-10"@, 300u32),
        ("2-7-8"@, 300u32),
        ("2-7-8-10"@, 300u32),
        ("2-7-8-9"@, 300u32),
        ("2-7-8-9-10"@, 300u32),
        ("2-7-9"@, 300u32),
        ("2-7-9-10"@, 300u32),
        ("2-8-9"@, 300u32),
        ("2-8-9-10"@, 300u32),
        ("2-9-10"@, 300u32),
        ("3-4"@, 300u32),
        ("3-4-10"@, 300u32),
        ("3-4-5"@, 300u32),
        ("3-4-5-10"@, 300u32),
        ("3-4-5-6"@, 300u32),
        ("3-4-5-6-10"@, 300u32),
        ("3-4-5-6-7"@, 300u32),
        ("3-4-5-6-7-10"@, 300u32),
        ("3-4-5-6-7-8"@, 300u32),
        ("3-4-5-6-7-8-10"@, 300u32),
        ("3-4-5-6-7-8-9"@, 300u32),
        ("3-4-5-6-7-8-9-10"@, 300u32),
        ("3-4-5-6-7-9"@, 300u32),
        ("3-4-5-6-7-9-10"@, 300u32),
        ("3-4-5-6-8"@, 300u32),
        ("3-4-5-6-8-10"@, 300u32),
        ("3-4-5-6-8-9"@, 300u32),
        ("3-4-5-6-8-9-10"@, 300u32),
        ("3-4-5-6-9"@, 300u32),
        ("3-4-5-6-9-10"@, 300u32),
        ("3-4-5-7"@, 300u32),
        ("3-4-5-7-10"@, 300u32),
        ("3-4-5-7-8"@, 300u32),
        ("3-4-5-7-8-10"@, 300u32),
        ("3-4-5-7-8-9"@, 300u32),
        ("3-4-5-7-8-9-10"@, 300u32),
        ("3-4-5-7-9"@, 300u32),
        ("3-4-5-7-9-10"@, 300u32),
        ("3-4-5-8"@, 300u32),
        ("3-4-5-8-10"@, 300u32),
        ("3-4-5-8-9"@, 300u32),
        ("3-4-5-8-9-10"@, 300u32),
    ]
}

#[verifier::rlimit(100)]
fn production_entries_c(t: &mut AwardTable)
    requires
        old(t).wf(),
    ensures
        final(t).wf(),
        final(t)@ == old(t)@ + production_pairs_c(),
{
    t.insert("2-4-7-9-10".to_owned(), 300);
    t.insert("2-4-8-10".to_owned(), 300);
    t.insert("2-4-8-9".to_owned(), 300);
    t.insert("2-4-8-9-10".to_owned(), 300);
    t.insert("2-4-9".to_owned(), 300);
    t.insert("2-4-9-10".to_owned(), 300);
    t.insert("2-5-10".to_owned(), 300);
    t.insert("2-5-6".to_owned(), 300);
    t.insert("2-5-6-10".to_owned(), 300);
    t.insert("2-5-6-7".to_owned(), 300);
    t.insert("2-5-6-7-10".to_owned(), 300);
    t.insert("2-5-6-7-8".to_owned(), 300);
    t.insert("2-5-6-7-8-10".to_owned(), 300);
    t.insert("2-5-6-7-8-9".to_owned(), 300);
    t.insert("2-5-6-7-8-9-10".to_owned(), 300);
    t.insert("2-5-6-7-9".to_owned(), 300);
    t.insert("2-5-6-7-9-10".to_owned(), 300);
    t.insert("2-5-6-8".to_owned(), 300);
    t.insert("2-5-6-8-10".to_owned(), 300);
    t.insert("2-5-6-8-9".to_owned(), 300);
    t.insert("2-5-6-8-9-10".to_owned(), 300);
    t.insert("2-5-6-9".to_owned(), 300);
    t.insert("2-5-6-9-10".to_owned(), 300);
    t.insert("2-5-7".to_owned(), 300);
    t.insert("2-5-7-10".to_owned(), 300);
    t.insert("2-5-7-8".to_owned(), 300);
    t.insert("2-5-7-8-10".to_owned(), 300);
    t.insert("2-5-7-8-9".to_owned(), 300);
    t.insert("2-5-7-8-9-10".to_owned(), 300);
    t.insert("2-5-7-9".to_owned(), 300);
    t.insert("2-5-7-9-10".to_owned(), 300);
    t.insert("2-5-8-10".to_owned(), 300);
    t.insert("2-5-8-9-10".to_owned(), 300);
    t.insert("2-5-9-10".to_owned(), 300);
    t.insert("2-6".to_owned(), 300);
    t.insert("2-6-10".to_owned(), 300);
    t.insert("2-6-7".to_owned(), 300);
    t.insert("2-6-7-10".to_owned(), 300);
    t.insert("2-6-7-8".to_owned(), 300);
    t.insert("2-6-7-8-10".to_owned(), 300);
    t.insert("2-6-7-8-9".to_owned(), 300);
    t.insert("2-6-7-8-9-10".to_owned(), 300);
    t.insert("2-6-7-9".to_owned(), 300);
    t.insert("2-6-7-9-10".to_owned(), 300);
    t.insert("2-6-8".to_owned(), 300);
    t.insert("2-6-8-10".to_owned(), 300);
    t.insert("2-6-8-9".to_owned(), 300);
    t.insert("2-6-8-9-10".to_owned(), 300);
    t.insert("2-6-9".to_owned(), 300);
    t.insert("2-6-9-10".to_owned(), 300);
    t.insert("2-7-10".to_owned(), 300);
    t.insert("2-7-8".to_owned(), 300);
    t.insert("2-7-8-10".to_owned(), 300);
    t.insert("2-7-8-9".to_owned(), 300);
    t.insert("2-7-8-9-10".to_owned(), 300);
    t.insert("2-7-9".to_owned(), 300);
    t.insert("2-7-9-10".to_owned(), 300);
    t.insert("2-8-9".to_owned(), 300);
    t.insert("2-8-9-10".to_owned(), 300);
    t.insert("2-9-10".to_owned(), 300);
    t.insert("3-4".to_owned(), 300);
    t.insert("3-4-10".to_owned(), 300);
    t.insert("3-4-5".to_owned(), 300);
    t.insert("3-4-5-10".to_owned(), 300);
    t.insert("3-4-5-6".to_owned(), 300);
    t.insert("3-4-5-6-10".to_owned(), 300);
    t.insert("3-4-5-6-7".to_owned(), 300);
    t.insert("3-4-5-6-7-10".to_owned(), 300);
    t.insert("3-4-5-6-7-8".to_owned(), 300);
    t.insert("3-4-5-6-7-8-10".to_owned(), 300);
    t.insert("3-4-5-6-7-8-9".to_owned(), 300);
    t.insert("3-4-5-6-7-8-9-10".to_owned(), 300);
    t.insert("3-4-5-6-7-9".to_owned(), 300);
    t.insert("3-4-5-6-7-9-10".to_owned(), 300);
    t.insert("3-4-5-6-8".to_owned(), 300);
    t.insert("3-4-5-6-8-10".to_owned(), 300);
    t.insert("3-4-5-6-8-9".to_owned(), 300);
    t.insert("3-4-5-6-8-9-10".to_owned(), 300);
    t.insert("3-4-5-6-9".to_owned(), 300);
    t.insert("3-4-5-6-9-10".to_owned(), 300);
    t.insert("3-4-5-7".to_owned(), 300);
    t.insert("3-4-5-7-10".to_owned(), 300);
    t.insert("3-4-5-7-8".to_owned(), 300);
    t.insert("3-4-5-7-8-10".to_owned(), 300);
    t.insert("3-4-5-7-8-9".to_owned(), 300);
    t.insert("3-4-5-7-8-9-10".to_owned(), 300);
    t.insert("3-4-5-7-9".to_owned(), 300);
    t.insert("3-4-5-7-9-10".to_owned(), 300);
    t.insert("3-4-5-8".to_owned(), 300);
    t.insert("3-4-5-8-10".to_owned(), 300);
    t.insert("3-4-5-8-9".to_owned(), 300);
    t.insert("3-4-5-8-9-10".to_owned(), 300);
    proof {
        assert(final(t)@ =~= old(t)@ + production_pairs_c());
    }
}


pub open spec fn production_pairs_d() -> Seq<(Seq<char>, u32)> {
    seq![
        ("3-4-5-9"@, 300u32),
        ("3-4-5-9-10"@, 300u32),
        ("3-4-6"@, 300u32),
        ("3-4-6-10"@, 300u32),
        ("3-4-6-7"@, 300u32),
        ("3-4-6-7-10"@, 300u32),
        ("3-4-6-7-8"@, 300u32),
        ("3-4-6-7-8-10"@, 300u32),
        ("3-4-6-7-8-9"@, 300u32),
        ("3-4-6-7-8-9-10"@, 300u32),
        ("3-4-6-7-9"@, 300u32),
        ("3-4-6-7-9-10"@, 300u32),
        ("3-4-6-8"@, 300u32),
        ("3-4-6-8-10"@, 300u32),
        ("3-4-6-8-9"@, 300u32),
        ("3-4-6-8-9-10"@, 300u32),
        ("3-4-6-9"@, 300u32),
        ("3-4-6-9-10"@, 300u32),
        ("3-4-7"@, 300u32),
        ("3-4-7-10"@, 300u32),
        ("3-4-7-8"@, 300u32),
        ("3-4-7-8-10"@, 300u32),
        ("3-4-7-8-9"@, 300u32),
        ("3-4-7-8-9-10"@, 300u32),
        ("3-4-7-9"@, 300u32),
        ("3-4-7-9-10"@, 300u32),
        ("3-4-8"@, 300u32),
        ("3-4-8-10"@, 300u32),
        ("3-4-8-9"@, 300u32),
        ("3-4-8-9-10"@, 300u32),
        ("3-4-9"@, 300u32),
        ("3-4-9-10"@, 300u32),
        ("3-5-10"@, 300u32),
        ("3-5-6-7"@, 300u32),
        ("3-5-6-7-10"@, 300u32),
        ("3-5-6-7-8"@, 300u32),
        ("3-5-6-7-8-10"@, 300u32),
        ("3-5-6-7-8-9"@, 300u32),
        ("3-5-6-7-8-9-10"@, 300u32),
        ("3-5-6-7-9"@, 300u32),
        ("3-5-6-7-9-10"@, 300u32),
        ("3-5-7"@, 300u32),
        ("3-5-7-10"@, 300u32),
        ("3-5-7-8"@, 300u32),
        ("3-5-7-8-10"@, 300u32),
        ("3-5-7-8-9"@, 300u32),
        ("3-5-7-8-9-10"@, 300u32),
        ("3-5-7-9"@, 300u32),
        ("3-5-7-9-10"@, 300u32),
        ("3-5-8-10"@, 300u32),
        ("3-5-8-9-10"@, 300u32),
        ("3-5-9-10"@, 300u32),
        ("3-6-7"@, 300u32),
        ("3-6-7-10"@, 300u32),
        ("3-6-7-8"@, 300u32),
        ("3-6-7-8-10"@, 300u32),
        ("3-6-7-8-9"@, 300u32),
        ("3-6-7-8-9-10"@, 300u32),
        ("3-6-7-9"@, 300u32),
        ("3-6-7-9-10"@, 300u32),
        ("3-6-8"@, 300u32),
        ("3-6-8-10"@, 300u32),
        ("3-6-8-9"@, 300u32),
        ("3-6-8-9-10"@, 300u32),
        ("3-7"@, 300u32),
        ("3-7-10"@, 300u32),
        ("3-7-8"@, 300u32),
        ("3-7-8-10"@, 300u32),
        ("3-7-8-9"@, 300u32),
        ("3-7-8-9-10"@, 300u32),
        ("3-7-9-10"@, 300u32),
        ("3-8-10"@, 300u32),
        ("3-8-9"@, 300u32),
        ("3-8-9-10"@, 300u32),
        ("3-9-10"@, 300u32),
        ("4-10"@, 300u32),
        ("4-5-10"@, 300u32),
        ("4-5-6"@, 300u32),
        ("4-5-6-10"@, 300u32),
        ("4-5-6-7"@, 300u32),
        ("4-5-6-7-10"@, 300u32),
        ("4-5-6-7-8"@, 300u32),
        ("4-5-6-7-8-10"@, 300u32),
        ("4-5-6-7-8-9"@, 300u32),
        ("4-5-6-7-8-9-10"@, 300u32),
        ("4-5-6-7-9"@, 300u32),
        ("4-5-6-7-9-10"@, 300u32),
        ("4-5-6-8"@, 300u32),
        ("4-5-6-8-10"@, 300u32),
        ("4-5-6-8-9"@, 300u32),
        ("4-5-6-8-9-10"@, 300u32),
        ("4-5-6-9"@, 300u32),
    ]
}

#[verifier::rlimit(100)]
fn production_entries_d(t: &mut AwardTable)
    requires
        old(t).wf(),
    ensures
        final(t).wf(),
        final(t)@ == old(t)@ + production_pairs_d(),
{
    t.insert("3-4-5-9".to_owned(), 300);
    t.insert("3-4-5-9-10".to_owned(), 300);
    t.insert("3-4-6".to_owned(), 300);
    t.insert("3-4-6-10".to_owned(), 300);
    t.insert("3-4-6-7".to_owned(), 300);
    t.insert("3-4-6-7-10".to_owned(), 300);
    t.insert("3-4-6-7-8".to_owned(), 300);
    t.insert("3-4-6-7-8-10".to_owned(), 300);
    t.insert("3-4-6-7-8-9".to_owned(), 300);
    t.insert("3-4-6-7-8-9-10".to_owned(), 300);
    t.insert("3-4-6-7-9".to_owned(), 300);
    t.insert("3-4-6-7-9-10".to_owned(), 300);
    t.insert("3-4-6-8".to_owned(), 300);
    t.insert("3-4-6-8-10".to_owned(), 300);
    t.insert("3-4-6-8-9".to_owned(), 300);
    t.insert("3-4-6-8-9-10".to_owned(), 300);
    t.insert("3-4-6-9".to_owned(), 300);
    t.insert("3-4-6-9-10".to_owned(), 300);
    t.insert("3-4-7".to_owned(), 300);
    t.insert("3-4-7-10".to_owned(), 300);
    t.insert("3-4-7-8".to_owned(), 300);
    t.insert("3-4-7-8-10".to_owned(), 300);
    t.insert("3-4-7-8-9".to_owned(), 300);
    t.insert("3-4-7-8-9-10".to_owned(), 300);
    t.insert("3-4-7-9".to_owned(), 300);
    t.insert("3-4-7-9-10".to_owned(), 300);
    t.insert("3-4-8".to_owned(), 300);
    t.insert("3-4-8-10".to_owned(), 300);
    t.insert("3-4-8-9".to_owned(), 300);
    t.insert("3-4-8-9-10".to_owned(), 300);
    t.insert("3-4-9".to_owned(), 300);
    t.insert("3-4-9-10".to_owned(), 300);
    t.insert("3-5-10".to_owned(), 300);
    t.insert("3-5-6-7".to_owned(), 300);
    t.insert("3-5-6-7-10".to_owned(), 300);
    t.insert("3-5-6-7-8".to_owned(), 300);
    t.insert("3-5-6-7-8-10".to_owned(), 300);
    t.insert("3-5-6-7-8-9".to_owned(), 300);
    t.insert("3-5-6-7-8-9-10".to_owned(), 300);
    t.insert("3-5-6-7-9".to_owned(), 300);
    t.insert("3-5-6-7-9-10".to_owned(), 300);
    t.insert("3-5-7".to_owned(), 300);
    t.insert("3-5-7-10".to_owned(), 300);
    t.insert("3-5-7-8".to_owned(), 300);
    t.insert("3-5-7-8-10".to_owned(), 300);
    t.insert("3-5-7-8-9".to_owned(), 300);
    t.insert("3-5-7-8-9-10".to_owned(), 300);
    t.insert("3-5-7-9".to_owned(), 300);
    t.insert("3-5-7-9-10".to_owned(), 300);
    t.insert("3-5-8-10".to_owned(), 300);
    t.insert("3-5-8-9-10".to_owned(), 300);
    t.insert("3-5-9-10".to_owned(), 300);
    t.insert("3-6-7".to_owned(), 300);
    t.insert("3-6-7-10".to_owned(), 300);
    t.insert("3-6-7-8".to_owned(), 300);
    t.insert("3-6-7-8-10".to_owned(), 300);
    t.insert("3-6-7-8-9".to_owned(), 300);
    t.insert("3-6-7-8-9-10".to_owned(), 300);
    t.insert("3-6-7-9".to_owned(), 300);
    t.insert("3-6-7-9-10".to_owned(), 300);
    t.insert("3-6-8".to_owned(), 300);
    t.insert("3-6-8-10".to_owned(), 300);
    t.insert("3-6-8-9".to_owned(), 300);
    t.insert("3-6-8-9-10".to_owned(), 300);
    t.insert("3-7".to_owned(), 300);
    t.insert("3-7-10".to_owned(), 300);
    t.insert("3-7-8".to_owned(), 300);
    t.insert("3-7-8-10".to_owned(), 300);
    t.insert("3-7-8-9".to_owned(), 300);
    t.insert("3-7-8-9-10".to_owned(), 300);
    t.insert("3-7-9-10".to_owned(), 300);
    t.insert("3-8-10".to_owned(), 300);
    t.insert("3-8-9".to_owned(), 300);
    t.insert("3-8-9-10".to_owned(), 300);
    t.insert("3-9-10".to_owned(), 300);
    t.insert("4-10".to_owned(), 300);
    t.insert("4-5-10".to_owned(), 300);
    t.insert("4-5-6".to_owned(), 300);
    t.insert("4-5-6-10".to_owned(), 300);
    t.insert("4-5-6-7".to_owned(), 300);
    t.insert("4-5-6-7-10".to_owned(), 300);
    t.insert("4-5-6-7-8".to_owned(), 300);
    t.insert("4-5-6-7-8-10".to_owned(), 300);
    t.insert("4-5-6-7-8-9".to_owned(), 300);
    t.insert("4-5-6-7-8-9-10".to_owned(), 300);
    t.insert("4-5-6-7-9".to_owned(), 300);
    t.insert("4-5-6-7-9-10".to_owned(), 300);
    t.insert("4-5-6-8".to_owned(), 300);
    t.insert("4-5-6-8-10".to_owned(), 300);
    t.insert("4-5-6-8-9".to_owned(), 300);
    t.insert("4-5-6-8-9-10".to_owned(), 300);
    t.insert("4-5-6-9".to_owned(), 300);
    proof {
        assert(final(t)@ =~= old(t)@ + production_pairs_d());
    }
}


pub open spec fn production_pairs_e() -> Seq<(Seq<char>, u32)> {
    seq![
        ("4-5-6-9-10"@, 300u32),
        ("4-5-7"@, 300u32),
        ("4-5-7-10"@, 300u32),
        ("4-5-7-8"@, 300u32),
        ("4-5-7-8-10"@, 300u32),
        ("4-5-7-8-9"@, 300u32),
        ("4-5-7-8-9-10"@, 300u32),
        ("4-5-7-9"@, 300u32),
        ("4-5-7-9-10"@, 300u32),
        ("4-5-8"@, 300u32),
        ("4-5-8-10"@, 300u32),
        ("4-5-8-9"@, 300u32),
        ("4-5-8-9-10"@, 300u32),
        ("4-5-9"@, 300u32),
        ("4-5-9-10"@, 300u32),
        ("4-6-7-8"@, 300u32),
        ("4-6-7-8-9"@, 300u32),
        ("4-6-7-8-9-10"@, 300u32),
        ("4-6-7-9"@, 300u32),
        ("4-6-8"@, 300u32),
        ("4-6-8-10"@, 300u32),
        ("4-6-8-9"@, 300u32),
        ("4-6-8-9-10"@, 300u32),
        ("4-6-9"@, 300u32),
        ("4-6-9-10"@, 300u32),
        ("4-7-10"@, 300u32),
        ("4-7-8-10"@, 300u32),
        ("4-7-8-9"@, 300u32),
        ("4-7-8-9-10"@, 300u32),
        ("4-7-9"@, 300u32),
        ("4-7-9-10"@, 300u32),
        ("4-8-10"@, 300u32),
        ("4-8-9"@, 300u32),
        ("4-8-9-10"@, 300u32),
        ("4-9"@, 300u32),
        ("4-9-10"@, 300u32),
        ("5-10"@, 300u32),
        ("5-6-10"@, 300u32),
        ("5-6-7"@, 300u32),
        ("5-6-7-10"@, 300u32),
        ("5-6-7-8"@, 300u32),
        ("5-6-7-8-10"@, 300u32),
        ("5-6-7-8-9"@, 300u32),
        ("5-6-7-8-9-10"@, 300u32),
        ("5-6-7-9"@, 300u32),
        ("5-6-7-9-10"@, 300u32),
        ("5-6-8"@, 300u32),
        ("5-6-8-10"@, 300u32),
        ("5-6-8-9"@, 300u32),
        ("5-6-8-9-10"@, 300u32),
        ("5-6-9"@, 300u32),
        ("5-6-9-10"@, 300u32),
        ("5-7"@, 300u32),
        ("5-7-10"@, 300u32),
        ("5-7-8"@, 300u32),
        ("5-7-8-10"@, 300u32),
        ("5-7-8-9"@, 300u32),
        ("5-7-8-9-10"@, 300u32),
        ("5-7-9"@, 300u32),
        ("5-7-9-10"@, 300u32),
        ("5-8-10"@, 300u32),
        ("5-8-9-10"@, 300u32),
        ("5-9-10"@, 300u32),
        ("6-7"@, 300u32),
        ("6-7-10"@, 300u32),
        ("6-7-8"@, 300u32),
        ("6-7-8-10"@, 300u32),
        ("6-7-8-9"@, 300u32),
        ("6-7-8-9-10"@, 300u32),
        ("6-7-9"@, 300u32),
        ("6-7-9-10"@, 300u32),
        ("6-8"@, 300u32),
        ("6-8-10"@, 300u32),
        ("6-8-9"@, 300u32),
        ("6-8-9-10"@, 300u32),
        ("7-8-10"@, 300u32),
        ("7-8-9"@, 300u32),
        ("7-8-9-10"@, 300u32),
        ("7-9-10"@, 300u32),
        ("8-9-10"@, 300u32),
        ("2-8-10"@, 500u32),
        ("3-7-9"@, 500u32),
        ("4-6"@, 500u32),
        ("4-6-10"@, 500u32),
        ("4-6-7"@, 500u32),
        ("4-6-7-10"@, 500u32),
        ("4-6-7-8-10"@, 500u32),
        ("4-6-7-9-10"@, 500u32),
        ("7-10"@, 500u32),
        ("7-9"@, 500u32),
        ("8-10"@, 500u32),
    ]
}

#[verifier::rlimit(100)]
fn production_entries_e(t: &mut AwardTable)
    requires
        old(t).wf(),
    ensures
        final(t).wf(),
        final(t)@ == old(t)@ + production_pairs_e(),
{
    t.insert("4-5-6-9-10".to_owned(), 300);
    t.insert("4-5-7".to_owned(), 300);
    t.insert("4-5-7-10".to_owned(), 300);
    t.insert("4-5-7-8".to_owned(), 300);
    t.insert("4-5-7-8-10".to_owned(), 300);
    t.insert("4-5-7-8-9".to_owned(), 300);
    t.insert("4-5-7-8-9-10".to_owned(), 300);
    t.insert("4-5-7-9".to_owned(), 300);
    t.insert("4-5-7-9-10".to_owned(), 300);
    t.insert("4-5-8".to_owned(), 300);
    t.insert("4-5-8-10".to_owned(), 300);
    t.insert("4-5-8-9".to_owned(), 300);
    t.insert("4-5-8-9-10".to_owned(), 300);
    t.insert("4-5-9".to_owned(), 300);
    t.insert("4-5-9-10".to_owned(), 300);
    t.insert("4-6-7-8".to_owned(), 300);
    t.insert("4-6-7-8-9".to_owned(), 300);
    t.insert("4-6-7-8-9-10".to_owned(), 300);
    t.insert("4-6-7-9".to_owned(), 300);
    t.insert("4-6-8".to_owned(), 300);
    t.insert("4-6-8-10".to_owned(), 300);
    t.insert("4-6-8-9".to_owned(), 300);
    t.insert("4-6-8-9-10".to_owned(), 300);
    t.insert("4-6-9".to_owned(), 300);
    t.insert("4-6-9-10".to_owned(), 300);
    t.insert("4-7-10".to_owned(), 300);
    t.insert("4-7-8-10".to_owned(), 300);
    t.insert("4-7-8-9".to_owned(), 300);
    t.insert("4-7-8-9-10".to_owned(), 300);
    t.insert("4-7-9".to_owned(), 300);
    t.insert("4-7-9-10".to_owned(), 300);
    t.insert("4-8-10".to_owned(), 300);
    t.insert("4-8-9".to_owned(), 300);
    t.insert("4-8-9-10".to_owned(), 300);
    t.insert("4-9".to_owned(), 300);
    t.insert("4-9-10".to_owned(), 300);
    t.insert("5-10".to_owned(), 300);
    t.insert("5-6-10".to_owned(), 300);
    t.insert("5-6-7".to_owned(), 300);
    t.insert("5-6-7-10".to_owned(), 300);
    t.insert("5-6-7-8".to_owned(), 300);
    t.insert("5-6-7-8-10".to_owned(), 300);
    t.insert("5-6-7-8-9".to_owned(), 300);
    t.insert("5-6-7-8-9-10".to_owned(), 300);
    t.insert("5-6-7-9".to_owned(), 300);
    t.insert("5-6-7-9-10".to_owned(), 300);
    t.insert("5-6-8".to_owned(), 300);
    t.insert("5-6-8-10".to_owned(), 300);
    t.insert("5-6-8-9".to_owned(), 300);
    t.insert("5-6-8-9-10".to_owned(), 300);
    t.insert("5-6-9".to_owned(), 300);
    t.insert("5-6-9-10".to_owned(), 300);
    t.insert("5-7".to_owned(), 300);
    t.insert("5-7-10".to_owned(), 300);
    t.insert("5-7-8".to_owned(), 300);
    t.insert("5-7-8-10".to_owned(), 300);
    t.insert("5-7-8-9".to_owned(), 300);
    t.insert("5-7-8-9-10".to_owned(), 300);
    t.insert("5-7-9".to_owned(), 300);
    t.insert("5-7-9-10".to_owned(), 300);
    t.insert("5-8-10".to_owned(), 300);
    t.insert("5-8-9-10".to_owned(), 300);
    t.insert("5-9-10".to_owned(), 300);
    t.insert("6-7".to_owned(), 300);
    t.insert("6-7-10".to_owned(), 300);
    t.insert("6-7-8".to_owned(), 300);
    t.insert("6-7-8-10".to_owned(), 300);
    t.insert("6-7-8-9".to_owned(), 300);
    t.insert("6-7-8-9-10".to_owned(), 300);
    t.insert("6-7-9".to_owned(), 300);
    t.insert("6-7-9-10".to_owned(), 300);
    t.insert("6-8".to_owned(), 300);
    t.insert("6-8-10".to_owned(), 300);
    t.insert("6-8-9".to_owned(), 300);
    t.insert("6-8-9-10".to_owned(), 300);
    t.insert("7-8-10".to_owned(), 300);
    t.insert("7-8-9".to_owned(), 300);
    t.insert("7-8-9-10".to_owned(), 300);
    t.insert("7-9-10".to_owned(), 300);
    t.insert("8-9-10".to_owned(), 300);
    t.insert("2-8-10".to_owned(), 500);
    t.insert("3-7-9".to_owned(), 500);
    t.insert("4-6".to_owned(), 500);
    t.insert("4-6-10".to_owned(), 500);
    t.insert("4-6-7".to_owned(), 500);
    t.insert("4-6-7-10".to_owned(), 500);
    t.insert("4-6-7-8-10".to_owned(), 500);
    t.insert("4-6-7-9-10".to_owned(), 500);
    t.insert("7-10".to_owned(), 500);
    t.insert("7-9".to_owned(), 500);
    t.insert("8-10".to_owned(), 500);
    proof {
        assert(final(t)@ =~= old(t)@ + production_pairs_e());
    }
}

} // verus!
