//! Durations in words, as they are shown to the user.

use vstd::prelude::*;
use vstd::string::StringExecFns;

verus! {

/// The character for the digit `d`.
pub open spec fn digit(d: nat) -> char {
    if d == 0 {
        '0'
    } else if d == 1 {
        '1'
    } else if d == 2 {
        '2'
    } else if d == 3 {
        '3'
    } else if d == 4 {
        '4'
    } else if d == 5 {
        '5'
    } else if d == 6 {
        '6'
    } else if d == 7 {
        '7'
    } else if d == 8 {
        '8'
    } else {
        '9'
    }
}

/// The number `n` written in decimal, without leading zeros.
pub open spec fn decimal(n: nat) -> Seq<char>
    decreases n,
{
    if n < 10 {
        seq![digit(n)]
    } else {
        decimal(n / 10).push(digit(n % 10))
    }
}

/// The duration of `secs` seconds in words. Whole hours leave the seconds
/// out, and days are counted in hours.
pub open spec fn in_words(secs: nat) -> Seq<char> {
    let s = secs % 60;
    let m = (secs / 60) % 60;
    let h = (secs / 60) / 60;
    if h == 0 {
        if m == 0 {
            if s == 0 {
                "None"@
            } else if s == 1 {
                "one second"@
            } else {
                decimal(s) + " seconds"@
            }
        } else if m == 1 {
            if s == 1 {
                "one minute one second"@
            } else {
                "one minute "@ + decimal(s) + " second"@
            }
        } else if s == 1 {
            decimal(m) + " minutes one second"@
        } else {
            decimal(m) + " minutes "@ + decimal(s) + " seconds"@
        }
    } else if h == 1 {
        if m == 0 {
            "an hour"@
        } else if m == 1 {
            "an hour one minute"@
        } else {
            "one hour "@ + decimal(m) + " minute"@
        }
    } else {
        decimal(h) + " hours "@ + decimal(m) + " minutes"@
    }
}

/// The text of the digit `d`.
fn digit_text(d: u64) -> (text: &'static str)
    requires
        d < 10,
    ensures
        text@ == seq![digit(d as nat)],
{
    proof {
        reveal_strlit("0");
        reveal_strlit("1");
        reveal_strlit("2");
        reveal_strlit("3");
        reveal_strlit("4");
        reveal_strlit("5");
        reveal_strlit("6");
        reveal_strlit("7");
        reveal_strlit("8");
        reveal_strlit("9");
    }
    let text = if d == 0 {
        "0"
    } else if d == 1 {
        "1"
    } else if d == 2 {
        "2"
    } else if d == 3 {
        "3"
    } else if d == 4 {
        "4"
    } else if d == 5 {
        "5"
    } else if d == 6 {
        "6"
    } else if d == 7 {
        "7"
    } else if d == 8 {
        "8"
    } else {
        "9"
    };
    assert(text@ =~= seq![digit(d as nat)]);
    text
}

/// Appends `n` in decimal to `text`.
fn push_decimal(text: &mut String, n: u64)
    ensures
        final(text)@ == old(text)@ + decimal(n as nat),
    decreases n,
{
    if n >= 10 {
        push_decimal(text, n / 10);
    }
    text.append(digit_text(n % 10));
    assert(text@ =~= old(text)@ + decimal(n as nat));
}

/// Says how long `secs` seconds are, in words.
pub fn display_duration(secs: u64) -> (words: String)
    ensures
        words@ == in_words(secs as nat),
{
    let s = secs % 60;
    let m = (secs / 60) % 60;
    let h = (secs / 60) / 60;
    let mut words = String::new();
    if h == 0 {
        if m == 0 {
            if s == 0 {
                words.append("None");
            } else if s == 1 {
                words.append("one second");
            } else {
                push_decimal(&mut words, s);
                words.append(" seconds");
            }
        } else if m == 1 {
            if s == 1 {
                words.append("one minute one second");
            } else {
                words.append("one minute ");
                push_decimal(&mut words, s);
                words.append(" second");
            }
        } else if s == 1 {
            push_decimal(&mut words, m);
            words.append(" minutes one second");
        } else {
            push_decimal(&mut words, m);
            words.append(" minutes ");
            push_decimal(&mut words, s);
            words.append(" seconds");
        }
    } else if h == 1 {
        if m == 0 {
            words.append("an hour");
        } else if m == 1 {
            words.append("an hour one minute");
        } else {
            words.append("one hour ");
            push_decimal(&mut words, m);
            words.append(" minute");
        }
    } else {
        push_decimal(&mut words, h);
        words.append(" hours ");
        push_decimal(&mut words, m);
        words.append(" minutes");
    }
    assert(words@ =~= in_words(secs as nat));
    words
}

} // verus!
