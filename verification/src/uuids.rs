//! Uuid texts made from a counter, for the rare draw that repeats an
//! earlier uuid: texts `hhhhhhhh-0000-4000-8000-0000llllllll`, the
//! counter's high and low 32 bits in lowercase hex around a fixed middle.
//! They have the layout of a version 4 uuid, and distinct counters give
//! distinct texts.

use vstd::prelude::*;
use crate::convert::{is_lower_hex, is_v4_uuid_text};

verus! {

/// The lowercase hexadecimal digit for `v` (below 16).
pub open spec fn hex_char(v: nat) -> char {
    if v == 0 {
        '0'
    } else if v == 1 {
        '1'
    } else if v == 2 {
        '2'
    } else if v == 3 {
        '3'
    } else if v == 4 {
        '4'
    } else if v == 5 {
        '5'
    } else if v == 6 {
        '6'
    } else if v == 7 {
        '7'
    } else if v == 8 {
        '8'
    } else if v == 9 {
        '9'
    } else if v == 10 {
        'a'
    } else if v == 11 {
        'b'
    } else if v == 12 {
        'c'
    } else if v == 13 {
        'd'
    } else if v == 14 {
        'e'
    } else {
        'f'
    }
}

/// The last `n` hexadecimal digits of `c`, most significant first.
pub open spec fn hex_digits(c: nat, n: nat) -> Seq<char>
    decreases n,
{
    if n == 0 {
        Seq::empty()
    } else {
        hex_digits(c / 16, (n - 1) as nat).push(hex_char(c % 16))
    }
}

/// Sixteen to the power `n`.
pub open spec fn pow16(n: nat) -> nat
    decreases n,
{
    if n == 0 {
        1
    } else {
        16 * pow16((n - 1) as nat)
    }
}

/// The uuid text made from the counter `c`.
pub open spec fn counter_uuid(c: nat) -> Seq<char> {
    hex_digits(c / 4294967296, 8) + "-0000-4000-8000-0000"@ + hex_digits(c % 4294967296, 8)
}

fn hex_str(v: u64) -> (r: &'static str)
    requires
        v < 16,
    ensures
        r@ == seq![hex_char(v as nat)],
{
    if v == 0 {
        proof { reveal_strlit("0"); }
        "0"
    } else if v == 1 {
        proof { reveal_strlit("1"); }
        "1"
    } else if v == 2 {
        proof { reveal_strlit("2"); }
        "2"
    } else if v == 3 {
        proof { reveal_strlit("3"); }
        "3"
    } else if v == 4 {
        proof { reveal_strlit("4"); }
        "4"
    } else if v == 5 {
        proof { reveal_strlit("5"); }
        "5"
    } else if v == 6 {
        proof { reveal_strlit("6"); }
        "6"
    } else if v == 7 {
        proof { reveal_strlit("7"); }
        "7"
    } else if v == 8 {
        proof { reveal_strlit("8"); }
        "8"
    } else if v == 9 {
        proof { reveal_strlit("9"); }
        "9"
    } else if v == 10 {
        proof { reveal_strlit("a"); }
        "a"
    } else if v == 11 {
        proof { reveal_strlit("b"); }
        "b"
    } else if v == 12 {
        proof { reveal_strlit("c"); }
        "c"
    } else if v == 13 {
        proof { reveal_strlit("d"); }
        "d"
    } else if v == 14 {
        proof { reveal_strlit("e"); }
        "e"
    } else {
        proof { reveal_strlit("f"); }
        "f"
    }
}

fn hex_string(c: u64, n: usize) -> (r: String)
    ensures
        r@ == hex_digits(c as nat, n as nat),
    decreases n,
{
    if n == 0 {
        String::new()
    } else {
        let mut s = hex_string(c / 16, n - 1);
        s.append(hex_str(c % 16));
        s
    }
}

/// The uuid text made from the counter `c`.
pub fn counter_uuid_string(c: usize) -> (r: String)
    ensures
        r@ == counter_uuid(c as nat),
{
    let c64 = c as u64;
    let mut s = hex_string(c64 / 4294967296, 8);
    s.append("-0000-4000-8000-0000");
    let low = hex_string(c64 % 4294967296, 8);
    s.append(low.as_str());
    s
}

proof fn lemma_hex_char(v: nat)
    requires
        v < 16,
    ensures
        is_lower_hex(hex_char(v)),
{
}

proof fn lemma_hex_shape(c: nat, n: nat)
    ensures
        hex_digits(c, n).len() == n,
        forall|i: int| 0 <= i < n ==> is_lower_hex(#[trigger] hex_digits(c, n)[i]),
    decreases n,
{
    if n > 0 {
        lemma_hex_shape(c / 16, (n - 1) as nat);
        lemma_hex_char(c % 16);
    }
}

proof fn lemma_hex_char_injective(a: nat, b: nat)
    requires
        a < 16,
        b < 16,
        hex_char(a) == hex_char(b),
    ensures
        a == b,
{
}

proof fn lemma_hex_injective(a: nat, b: nat, n: nat)
    requires
        a < pow16(n),
        b < pow16(n),
        hex_digits(a, n) == hex_digits(b, n),
    ensures
        a == b,
    decreases n,
{
    if n > 0 {
        let m = (n - 1) as nat;
        lemma_hex_shape(a / 16, m);
        lemma_hex_shape(b / 16, m);
        assert(hex_digits(a, n).last() == hex_char(a % 16));
        assert(hex_digits(b, n).last() == hex_char(b % 16));
        lemma_hex_char_injective(a % 16, b % 16);
        assert(hex_digits(a / 16, m) =~= hex_digits(a, n).drop_last());
        assert(hex_digits(b / 16, m) =~= hex_digits(b, n).drop_last());
        lemma_hex_injective(a / 16, b / 16, m);
    }
}

/// Every counter text has the layout of a version 4 uuid.
pub proof fn counter_uuid_is_v4(c: nat)
    ensures
        is_v4_uuid_text(counter_uuid(c)),
{
    let h = hex_digits(c / 4294967296, 8);
    let l = hex_digits(c % 4294967296, 8);
    lemma_hex_shape(c / 4294967296, 8);
    lemma_hex_shape(c % 4294967296, 8);
    reveal_strlit("-0000-4000-8000-0000");
    let mid = "-0000-4000-8000-0000"@;
    assert(mid =~= seq!['-', '0', '0', '0', '0', '-', '4', '0', '0', '0', '-', '8', '0', '0', '0', '-', '0', '0', '0', '0']);
    let s = counter_uuid(c);
    assert(s.len() == 36);
    assert forall|i: int|
        0 <= i < 36 implies (if i == 8 || i == 13 || i == 18 || i == 23 {
        #[trigger] s[i] == '-'
    } else {
        is_lower_hex(s[i])
    }) by {
        if i < 8 {
            assert(s[i] == h[i]);
        } else if i < 28 {
            assert(s[i] == mid[i - 8]);
        } else {
            assert(s[i] == l[i - 28]);
        }
    }
    assert(s[14] == mid[6]);
    assert(s[19] == mid[11]);
}

/// Distinct counters give distinct texts.
pub proof fn counter_uuid_injective(a: nat, b: nat)
    requires
        a < 18446744073709551616,
        b < 18446744073709551616,
        counter_uuid(a) == counter_uuid(b),
    ensures
        a == b,
{
    reveal_with_fuel(pow16, 9);
    assert(pow16(8) == 4294967296);
    let ha = hex_digits(a / 4294967296, 8);
    let hb = hex_digits(b / 4294967296, 8);
    let la = hex_digits(a % 4294967296, 8);
    let lb = hex_digits(b % 4294967296, 8);
    lemma_hex_shape(a / 4294967296, 8);
    lemma_hex_shape(b / 4294967296, 8);
    lemma_hex_shape(a % 4294967296, 8);
    lemma_hex_shape(b % 4294967296, 8);
    let mid = "-0000-4000-8000-0000"@;
    assert(counter_uuid(a) =~= ha + (mid + la));
    assert(counter_uuid(b) =~= hb + (mid + lb));
    assert(ha =~= counter_uuid(a).take(8));
    assert(hb =~= counter_uuid(b).take(8));
    assert(mid + la =~= counter_uuid(a).skip(8));
    assert(mid + lb =~= counter_uuid(b).skip(8));
    assert(la =~= (mid + la).skip(mid.len() as int));
    assert(lb =~= (mid + lb).skip(mid.len() as int));
    lemma_hex_injective(a / 4294967296, b / 4294967296, 8);
    lemma_hex_injective(a % 4294967296, b % 4294967296, 8);
}

/// At most as many distinct counter texts as `taken` has entries can lie
/// among `taken`: if the texts of the counters `0..=c` all do, `taken`
/// has more than `c` entries.
pub proof fn counter_uuids_pigeonhole(taken: Seq<Seq<char>>, c: nat)
    requires
        c < 18446744073709551616,
        forall|k: nat| k <= c ==> taken.contains(#[trigger] counter_uuid(k)),
    ensures
        c < taken.len(),
{
    let cands = Seq::new(c + 1, |k: int| counter_uuid(k as nat));
    assert forall|i: int, j: int| 0 <= i < cands.len() && 0 <= j < cands.len() && i != j implies cands[i]
        != cands[j] by {
        if cands[i] == cands[j] {
            counter_uuid_injective(i as nat, j as nat);
        }
    }
    cands.unique_seq_to_set();
    assert(cands.to_set().subset_of(taken.to_set())) by {
        assert forall|x: Seq<char>| cands.to_set().contains(x) implies taken.to_set().contains(x) by {
            let i = choose|i: int| 0 <= i < cands.len() && cands[i] == x;
            assert(taken.contains(counter_uuid(i as nat)));
        }
    }
    vstd::set_lib::lemma_len_subset(cands.to_set(), taken.to_set());
    taken.lemma_cardinality_of_set();
}

} // verus!
