//! Decisions taken when the bundled configuration files are copied into
//! `~/.config`: whether a file has to be written, and the name under which
//! a differing file is kept before it is replaced.
use vstd::prelude::*;
use crate::github::digits_value;
use crate::text::{ascii_digit, concat, same_text, string_of, to_chars};

verus! {

broadcast use vstd::string::group_string_axioms;

/// What writing a bundled file over a destination has to do.
#[derive(Debug, Clone, Copy, PartialEq, Eq, Structural)]
pub enum ConfigWrite {
    /// Nothing is there yet: write the file.
    Create,
    /// The destination already holds exactly the bundled content.
    UpToDate,
    /// Something else is there: move it aside, then write the file.
    BackUpAndWrite,
}

/// The action for a destination whose current content is `existing`
/// (`None` where it does not exist).
pub open spec fn spec_config_write(existing: Option<Seq<char>>, content: Seq<char>) -> ConfigWrite {
    match existing {
        None => ConfigWrite::Create,
        Some(e) => if e == content {
            ConfigWrite::UpToDate
        } else {
            ConfigWrite::BackUpAndWrite
        },
    }
}

/// Decides what writing `content` over a destination whose current content
/// is `existing` has to do.
pub fn config_write(existing: Option<&str>, content: &str) -> (w: ConfigWrite)
    ensures
        w == spec_config_write(
            match existing {
                Some(e) => Some(e@),
                None => None,
            },
            content@,
        ),
{
    match existing {
        None => ConfigWrite::Create,
        Some(e) => if same_text(e, content) {
            ConfigWrite::UpToDate
        } else {
            ConfigWrite::BackUpAndWrite
        },
    }
}

/// The decimal digit for `d < 10`.
pub open spec fn digit_char(d: nat) -> char {
    ((d + 48) as u8) as char
}

/// The decimal notation of `n`, without leading zeros.
pub open spec fn decimal(n: nat) -> Seq<char>
    decreases n,
{
    if n < 10 {
        seq![digit_char(n)]
    } else {
        decimal(n / 10).push(digit_char(n % 10))
    }
}

/// The decimal notation of `n`.
pub fn decimal_string(n: u64) -> (s: String)
    ensures
        s@ == decimal(n as nat),
{
    // Digits from the least significant one.
    let mut rev: Vec<char> = Vec::new();
    let mut m: u64 = n;
    assert(decimal(n as nat) =~= decimal(m as nat) + rev@.reverse());
    loop
        invariant_except_break
            decimal(n as nat) == decimal(m as nat) + rev@.reverse(),
        ensures
            decimal(n as nat) == rev@.reverse(),
        decreases m,
    {
        let d: u64 = m % 10;
        let c: char = ((d as u8) + 48) as char;
        let ghost before = rev@;
        rev.push(c);
        proof {
            assert(c == digit_char(d as nat));
            assert(rev@.reverse() =~= seq![c] + before.reverse());
        }
        if m < 10 {
            assert(decimal(m as nat) == seq![c]);
            assert(decimal(n as nat) =~= rev@.reverse());
            break;
        }
        proof {
            assert(decimal(m as nat) == decimal((m / 10) as nat).push(c));
            assert(decimal(n as nat) =~= decimal((m / 10) as nat) + rev@.reverse());
        }
        m = m / 10;
    }
    let mut out: Vec<char> = Vec::new();
    let mut i: usize = rev.len();
    while i > 0
        invariant
            i <= rev.len(),
            out@ == rev@.subrange(i as int, rev.len() as int).reverse(),
        decreases i,
    {
        i -= 1;
        out.push(rev[i]);
        assert(out@ =~= rev@.subrange(i as int, rev.len() as int).reverse());
    }
    assert(rev@.subrange(0, rev.len() as int) =~= rev@);
    string_of(&out)
}

/// The extension that `Path::with_extension` is given for the copy kept of
/// a replaced file: its old extension (empty where it has none), `.bak.`
/// and the time stamp.
pub open spec fn spec_backup_extension(ext: Option<Seq<char>>, ts: u64) -> Seq<char> {
    let e = match ext {
        Some(e) => e,
        None => Seq::empty(),
    };
    e + ".bak."@ + decimal(ts as nat)
}

/// The extension for the copy kept of a replaced file, from the file's
/// current extension and the time stamp in seconds.
pub fn backup_extension(ext: Option<&str>, ts: u64) -> (s: String)
    ensures
        s@ == spec_backup_extension(
            match ext {
                Some(e) => Some(e@),
                None => None,
            },
            ts,
        ),
{
    let e: &str = match ext {
        Some(e) => e,
        None => "",
    };
    proof {
        reveal_strlit("");
        reveal_strlit(".bak.");
    }
    let head = concat(e, ".bak.");
    let digits = decimal_string(ts);
    concat(head.as_str(), digits.as_str())
}

/// Law: the decimal notation of a number is a non-empty run of ASCII digits
/// that reads back as that number, without a leading zero (except for 0).
pub proof fn law_decimal_round_trip(n: nat)
    ensures
        decimal(n).len() > 0,
        forall|k: int| 0 <= k < decimal(n).len() ==> ascii_digit(#[trigger] decimal(n)[k]),
        digits_value(decimal(n)) == n,
        n > 0 ==> decimal(n)[0] != '0',
    decreases n,
{
    let d = n % 10;
    assert(digit_char(d) as u32 == d + 48) by {
        assert(d < 10);
    }
    assert(('0' as u32) == 48 && ('9' as u32) == 57);
    assert(ascii_digit(digit_char(d)));
    if n < 10 {
        assert(d == n);
        assert(decimal(n) == seq![digit_char(n)]);
        assert(seq![digit_char(n)].drop_last() =~= Seq::<char>::empty());
        assert(digits_value(decimal(n)) == digits_value(Seq::<char>::empty()) * 10 + ((digit_char(
            n,
        ) as u32) - ('0' as u32)) as nat);
        assert(ascii_digit(decimal(n)[0]));
    } else {
        law_decimal_round_trip(n / 10);
        let s = decimal(n / 10);
        assert(decimal(n) == s.push(digit_char(d)));
        assert(s.push(digit_char(d)).drop_last() =~= s);
        assert forall|k: int| 0 <= k < decimal(n).len() implies ascii_digit(
            #[trigger] decimal(n)[k],
        ) by {
            if k < s.len() {
                assert(decimal(n)[k] == s[k]);
            }
        }
        assert(decimal(n)[0] == s[0]);
        assert(digits_value(decimal(n)) == digits_value(s) * 10 + ((digit_char(d) as u32) - ('0' as u32)) as nat);
        assert(n == (n / 10) * 10 + d);
    }
}

/// Law: a file is written only when it is missing or differs from the
/// bundled content, and a differing file is always kept aside first; the
/// kept copy's extension is the old one, `.bak.` and a time stamp that
/// reads back as the given time.
pub proof fn law_config_writes(existing: Option<Seq<char>>, content: Seq<char>, ext: Option<Seq<char>>, ts: u64)
    ensures
        spec_config_write(existing, content) == ConfigWrite::UpToDate <==> existing == Some(content),
        spec_config_write(existing, content) == ConfigWrite::Create <==> existing is None,
        spec_config_write(existing, content) == ConfigWrite::BackUpAndWrite <==> (existing is Some
            && existing != Some(content)),
        ({
            let e = match ext {
                Some(e) => e,
                None => Seq::<char>::empty(),
            };
            let b = spec_backup_extension(ext, ts);
            let stamp = b.skip(e.len() as int + 5);
            &&& b.take(e.len() as int) == e
            &&& b.subrange(e.len() as int, e.len() as int + 5) == ".bak."@
            &&& digits_value(stamp) == ts
            &&& forall|k: int| 0 <= k < stamp.len() ==> ascii_digit(#[trigger] stamp[k])
        }),
{
    law_decimal_round_trip(ts as nat);
    let e = match ext {
        Some(e) => e,
        None => Seq::<char>::empty(),
    };
    reveal_strlit(".bak.");
    let b = spec_backup_extension(ext, ts);
    assert(b.take(e.len() as int) =~= e);
    assert(b.subrange(e.len() as int, e.len() as int + 5) =~= ".bak."@);
    assert(b.skip(e.len() as int + 5) =~= decimal(ts as nat));
}

} // verus!
