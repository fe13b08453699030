//! Human-readable durations and sizes.

use crate::calendar;
use crate::text;
use vstd::prelude::*;
use vstd::string::*;

verus! {

/// An amount with its unit, or nothing where the amount is zero.
pub open spec fn amount(n: int, unit: Seq<char>) -> Seq<Seq<char>> {
    if n > 0 {
        seq![text::decimal(n as nat) + unit]
    } else {
        Seq::empty()
    }
}

/// A duration in days, hours, minutes and seconds, without the units that do
/// not occur. Exactly one day reads as its hours.
pub open spec fn duration_text(micros: int) -> Seq<char> {
    let secs = calendar::whole_seconds(micros);
    if secs <= 0 {
        "0s"@
    } else if secs == 86_400 {
        "24h"@
    } else {
        text::joined(
            amount(secs / 86_400, "d"@) + amount(secs % 86_400 / 3600, "h"@) + amount(
                secs % 3600 / 60,
                "m"@,
            ) + amount(secs % 60, "s"@),
            " "@,
        )
    }
}

fn push_amount(parts: &mut Vec<String>, n: i64, unit: &str)
    requires
        0 <= n,
    ensures
        text::texts(final(parts)@) == text::texts(old(parts)@) + amount(n as int, unit@),
{
    broadcast use text::lemma_texts_push;

    if n > 0 {
        parts.push(text::decimal_u64(n as u64).concat(unit));
    }
    proof {
        assert(text::texts(parts@) =~= text::texts(old(parts)@) + amount(n as int, unit@));
    }
}

/// Formats a duration in microseconds.
///
/// Examples: `900_000_000` reads "15m", `86_400_000_000` reads "24h" and
/// `3_600_000_000` reads "1h".
pub fn format_micros_human(micros: i64) -> (r: String)
    ensures
        r@ == duration_text(micros as int),
{
    let secs: i64 = micros / 1_000_000;
    proof {
        assert(secs == calendar::whole_seconds(micros as int));
    }
    if secs <= 0 {
        return "0s".to_owned();
    }
    if secs == 86_400 {
        return "24h".to_owned();
    }
    let mut parts: Vec<String> = Vec::new();
    push_amount(&mut parts, secs / 86_400, "d");
    push_amount(&mut parts, secs % 86_400 / 3600, "h");
    push_amount(&mut parts, secs % 3600 / 60, "m");
    push_amount(&mut parts, secs % 60, "s");
    proof {
        let a = amount(secs as int / 86_400, "d"@);
        let b = amount(secs as int % 86_400 / 3600, "h"@);
        let c = amount(secs as int % 3600 / 60, "m"@);
        let d = amount(secs as int % 60, "s"@);
        assert(text::texts(parts@) =~= a + b + c + d);
    }
    text::join(&parts, " ")
}

/// The quotient rounded to the nearest integer, halves to the even one.
pub open spec fn rounded(n: nat, d: nat) -> nat {
    let q = n / d;
    let r = n % d;
    if 2 * r > d || (2 * r == d && q % 2 == 1) {
        q + 1
    } else {
        q
    }
}

/// A number of KiB: from one MiB on in MiB, to a tenth where it is not whole,
/// with the KiB beside it.
pub open spec fn size_text(kib: nat) -> Seq<char> {
    if kib < 1024 {
        text::decimal(kib) + " KiB"@
    } else if kib % 1024 == 0 {
        text::decimal(kib / 1024) + " MiB ("@ + text::decimal(kib) + " KiB)"@
    } else {
        let tenths = rounded(10 * kib, 1024);
        text::decimal(tenths / 10) + "."@ + text::decimal(tenths % 10) + " MiB ("@ + text::decimal(
            kib,
        ) + " KiB)"@
    }
}

/// Formats a memory size given in KiB.
///
/// Examples: `131_072` reads "128 MiB (131072 KiB)", `4_096` reads
/// "4 MiB (4096 KiB)" and `512` reads "512 KiB".
pub fn format_kib_human(kib: u32) -> (r: String)
    ensures
        r@ == size_text(kib as nat),
{
    let n: u64 = kib as u64;
    let raw = text::decimal_u64(n);
    if n < 1024 {
        raw.concat(" KiB")
    } else if n % 1024 == 0 {
        text::decimal_u64(n / 1024).concat(" MiB (").concat(raw.as_str()).concat(" KiB)")
    } else {
        let q: u64 = n * 10 / 1024;
        let rest: u64 = n * 10 % 1024;
        let tenths: u64 = if rest > 512 || (rest == 512 && q % 2 == 1) {
            q + 1
        } else {
            q
        };
        text::decimal_u64(tenths / 10).concat(".").concat(
            text::decimal_u64(tenths % 10).as_str(),
        ).concat(" MiB (").concat(raw.as_str()).concat(" KiB)")
    }
}

/// What a unit stands for, in seconds.
pub open spec fn unit_seconds(c: char) -> int {
    if c == 'd' {
        86_400
    } else if c == 'h' {
        3600
    } else if c == 'm' {
        60
    } else {
        1
    }
}

/// The seconds that amounts come to.
pub open spec fn seconds_of(parts: Seq<Seq<char>>) -> int
    decreases parts.len(),
{
    if parts.len() == 0 {
        0
    } else {
        let p = parts.last();
        seconds_of(parts.drop_last()) + unit_seconds(p.last()) * match text::digits_value(
            p.drop_last(),
        ) {
            Some(n) => n as int,
            None => 0,
        }
    }
}

proof fn lemma_amount(parts: Seq<Seq<char>>, n: int, unit: Seq<char>, c: char)
    requires
        n >= 0,
        unit == seq![c],
        c == 'd' || c == 'h' || c == 'm' || c == 's',
        forall|k: int| 0 <= k < parts.len() ==> !(#[trigger] parts[k]).contains(' '),
    ensures
        seconds_of(parts + amount(n, unit)) == seconds_of(parts) + unit_seconds(c) * n,
        forall|k: int|
            0 <= k < (parts + amount(n, unit)).len() ==> !(#[trigger] (parts + amount(
                n,
                unit,
            ))[k]).contains(' '),
        (parts + amount(n, unit)).len() == parts.len() + if n > 0 {
            1int
        } else {
            0
        },
{
    let all = parts + amount(n, unit);
    if n > 0 {
        let p = text::decimal(n as nat) + unit;
        text::lemma_decimal_value(n as nat);
        assert(all =~= parts.push(p));
        assert(all.drop_last() =~= parts);
        assert(p.last() == c);
        assert(p.drop_last() =~= text::decimal(n as nat));
        assert(!p.contains(' ')) by {
            if p.contains(' ') {
                let i = choose|i: int| 0 <= i < p.len() && p[i] == ' ';
                if i < p.len() - 1 {
                    assert('0' <= text::decimal(n as nat)[i] <= '9');
                }
            }
        }
    } else {
        assert(all =~= parts);
    }
}

proof fn lemma_one_amount(p: Seq<char>)
    ensures
        seconds_of(seq![p]) == unit_seconds(p.last()) * match text::digits_value(p.drop_last()) {
            Some(n) => n as int,
            None => 0,
        },
{
    assert(seq![p].drop_last() =~= Seq::<Seq<char>>::empty());
    assert(seconds_of(Seq::<Seq<char>>::empty()) == 0);
}

/// A duration is read back from its text: the amounts, each in its unit, come to
/// the whole seconds of the duration, and to nothing where there are none.
pub proof fn law_duration_round_trip(micros: int)
    ensures
        ({
            let secs = calendar::whole_seconds(micros);
            seconds_of(text::split_pieces(duration_text(micros), text::Separator::Char(' '))) == if secs
                > 0 {
                secs
            } else {
                0
            }
        }),
{
    let secs = calendar::whole_seconds(micros);
    let space = text::Separator::Char(' ');
    reveal_strlit("0s");
    reveal_strlit("24h");
    reveal_strlit(" ");
    reveal_strlit("d");
    reveal_strlit("h");
    reveal_strlit("m");
    reveal_strlit("s");
    if secs <= 0 {
        text::lemma_first_piece("0s"@, ' ', Seq::empty());
        assert("0s"@.drop_last() =~= seq!['0']);
        lemma_one_amount("0s"@);
        assert(text::digits_value(seq!['0']) == Some(0nat));
    } else if secs == 86_400 {
        text::lemma_first_piece("24h"@, ' ', Seq::empty());
        assert("24h"@.drop_last() =~= seq!['2', '4']);
        assert(seq!['2', '4'].drop_last() =~= seq!['2']);
        lemma_one_amount("24h"@);
        assert(text::digits_value(seq!['2']) == Some(2nat));
        assert(text::digits_value(seq!['2', '4']) == Some(24nat));
    } else {
        let none = Seq::<Seq<char>>::empty();
        assert("d"@ =~= seq!['d'] && "h"@ =~= seq!['h']);
        assert("m"@ =~= seq!['m'] && "s"@ =~= seq!['s']);
        let p1 = amount(secs / 86_400, "d"@);
        let p2 = p1 + amount(secs % 86_400 / 3600, "h"@);
        let p3 = p2 + amount(secs % 3600 / 60, "m"@);
        let p4 = p3 + amount(secs % 60, "s"@);
        lemma_amount(none, secs / 86_400, "d"@, 'd');
        assert(none + p1 =~= p1);
        lemma_amount(p1, secs % 86_400 / 3600, "h"@, 'h');
        lemma_amount(p2, secs % 3600 / 60, "m"@, 'm');
        lemma_amount(p3, secs % 60, "s"@, 's');
        assert(p4.len() > 0);
        assert(" "@ =~= seq![' ']);
        assert forall|k: int, i: int|
            0 <= k < p4.len() && 0 <= i < p4[k].len() implies !text::separates(
            space,
            #[trigger] p4[k][i],
        ) by {
            assert(p4[k].contains(p4[k][i]));
        }
        text::lemma_split_joined(p4, ' ', space);
        assert(seconds_of(p4) == 86_400 * (secs / 86_400) + 3600 * (secs % 86_400 / 3600) + 60 * (
        secs % 3600 / 60) + secs % 60);
    }
}

/// A size is rounded to the nearest tenth, to the even one where two are near.
pub proof fn law_rounded(n: nat, d: nat)
    requires
        d > 0,
    ensures
        2 * (d * rounded(n, d) - n) <= d,
        2 * (n - d * rounded(n, d)) <= d,
        2 * (d * rounded(n, d) - n) == d || 2 * (n - d * rounded(n, d)) == d ==> rounded(n, d) % 2
            == 0,
{
    let q = n / d;
    let r = n % d;
    vstd::arithmetic::div_mod::lemma_fundamental_div_mod(n as int, d as int);
    vstd::arithmetic::div_mod::lemma_mod_bound(n as int, d as int);
    assert(d * (q + 1) == d * q + d) by (nonlinear_arith);
}

/// A size always tells its kibibytes; from a mebibyte on it tells the mebibytes
/// first, whole ones without a fraction.
pub proof fn law_size_text(kib: nat)
    ensures
        kib < 1024 ==> size_text(kib) == text::decimal(kib) + " KiB"@,
        kib >= 1024 && kib % 1024 == 0 ==> size_text(kib) == text::decimal(kib / 1024) + " MiB ("@
            + text::decimal(kib) + " KiB)"@,
        kib >= 1024 && kib % 1024 != 0 ==> size_text(kib) == text::decimal(
            rounded(10 * kib, 1024) / 10,
        ) + "."@ + text::decimal(rounded(10 * kib, 1024) % 10) + " MiB ("@ + text::decimal(kib)
            + " KiB)"@,
{
}

proof fn lemma_alone(n: int, unit: Seq<char>, parts: Seq<Seq<char>>)
    requires
        n > 0,
        parts.len() == 1,
        parts[0] == text::decimal(n as nat) + unit,
    ensures
        text::joined(parts, " "@) == text::decimal(n as nat) + unit,
{
}

/// Nothing is shown as no seconds and one day as its hours; less than a minute is
/// shown in seconds alone, and whole days in days alone.
pub proof fn law_duration_forms(micros: int)
    ensures
        ({
            let secs = calendar::whole_seconds(micros);
            &&& secs <= 0 ==> duration_text(micros) == "0s"@
            &&& secs == 86_400 ==> duration_text(micros) == "24h"@
            &&& 0 < secs < 60 ==> duration_text(micros) == text::decimal(secs as nat) + "s"@
            &&& secs > 86_400 && secs % 86_400 == 0 ==> duration_text(micros) == text::decimal(
                (secs / 86_400) as nat,
            ) + "d"@
        }),
{
    let secs = calendar::whole_seconds(micros);
    let parts = amount(secs / 86_400, "d"@) + amount(secs % 86_400 / 3600, "h"@) + amount(
        secs % 3600 / 60,
        "m"@,
    ) + amount(secs % 60, "s"@);
    if 0 < secs < 60 {
        lemma_alone(secs, "s"@, parts);
    } else if secs > 86_400 && secs % 86_400 == 0 {
        lemma_alone(secs / 86_400, "d"@, parts);
    }
}

} // verus!
