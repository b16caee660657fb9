//! Rendering the result and metrics report lines.
//!
//! The host program samples telemetry and prints; the text it prints is
//! assembled here, so the line order and the rendering of every numeric
//! field are pinned down by contract.

use vstd::prelude::*;

verus! {

/// The decimal digit character for a value below ten.
pub open spec fn digit_char(d: int) -> char {
    if d == 0 {
        '0'
    } else if d == 1 {
        '1'
    } else if d == 2 {
        '2'
    } else if d == 3 {
        '3'
    } else if d == 4 {
        '4'
    } else if d == 5 {
        '5'
    } else if d == 6 {
        '6'
    } else if d == 7 {
        '7'
    } else if d == 8 {
        '8'
    } else {
        '9'
    }
}

/// The decimal rendering of a non-negative value: most significant digit
/// first, no leading zeros except for the single digit of zero itself.
pub open spec fn dec_digits(x: nat) -> Seq<char>
    decreases x,
{
    if x < 10 {
        seq![digit_char(x as int)]
    } else {
        dec_digits(x / 10) + seq![digit_char((x % 10) as int)]
    }
}

/// A character is a decimal digit.
pub open spec fn is_digit_char(c: char) -> bool {
    c == '0' || c == '1' || c == '2' || c == '3' || c == '4' || c == '5' || c == '6' || c == '7'
        || c == '8' || c == '9'
}

/// An unsigned rendering consists of digit characters alone: the unsigned
/// metric fields can never show a sign or any other mark.
pub proof fn lemma_dec_digits_only_digits(x: nat)
    ensures
        forall|i: int|
            0 <= i < dec_digits(x).len() ==> is_digit_char(#[trigger] dec_digits(x)[i]),
    decreases x,
{
    if x >= 10 {
        lemma_dec_digits_only_digits(x / 10);
        assert forall|i: int|
            0 <= i < dec_digits(x).len() implies is_digit_char(dec_digits(x)[i]) by {
            if i < dec_digits(x / 10).len() {
                assert(dec_digits(x)[i] == dec_digits(x / 10)[i]);
            } else {
                assert(dec_digits(x)[i] == digit_char((x % 10) as int));
            }
        }
    }
}

/// The decimal rendering of a signed value: a leading minus sign for
/// negative values, then the digits of the magnitude.
pub open spec fn dec_int(x: int) -> Seq<char> {
    if x < 0 {
        seq!['-'] + dec_digits((-x) as nat)
    } else {
        dec_digits(x as nat)
    }
}

/// Appends the character of a single decimal digit.
fn append_digit(out: &mut String, d: u8)
    requires
        d < 10,
    ensures
        final(out)@ == old(out)@ + seq![digit_char(d as int)],
{
    let piece: &str = if d == 0 {
        "0"
    } else if d == 1 {
        "1"
    } else if d == 2 {
        "2"
    } else if d == 3 {
        "3"
    } else if d == 4 {
        "4"
    } else if d == 5 {
        "5"
    } else if d == 6 {
        "6"
    } else if d == 7 {
        "7"
    } else if d == 8 {
        "8"
    } else {
        "9"
    };
    proof {
        reveal_strlit("0");
        reveal_strlit("1");
        reveal_strlit("2");
        reveal_strlit("3");
        reveal_strlit("4");
        reveal_strlit("5");
        reveal_strlit("6");
        reveal_strlit("7");
        reveal_strlit("8");
        reveal_strlit("9");
        assert(piece@ =~= seq![digit_char(d as int)]);
    }
    out.append(piece);
}

/// Appends the decimal rendering of an unsigned value.
pub fn append_u64(out: &mut String, x: u64)
    ensures
        final(out)@ == old(out)@ + dec_digits(x as nat),
    decreases x,
{
    if x < 10 {
        append_digit(out, x as u8);
    } else {
        assert(x as nat / 10 < x as nat);
        append_u64(out, x / 10);
        append_digit(out, (x % 10) as u8);
        proof {
            assert(old(out)@ + dec_digits(x as nat)
                =~= (old(out)@ + dec_digits(x as nat / 10))
                    + seq![digit_char((x as nat % 10) as int)]);
        }
    }
}

/// The decimal rendering of an unsigned value as a fresh string.
pub fn u64_string(x: u64) -> (r: String)
    ensures
        r@ == dec_digits(x as nat),
{
    let mut out = String::new();
    append_u64(&mut out, x);
    proof {
        assert(Seq::<char>::empty() + dec_digits(x as nat) =~= dec_digits(x as nat));
    }
    out
}

/// The decimal rendering of a signed value as a fresh string.
pub fn i32_string(x: i32) -> (r: String)
    ensures
        r@ == dec_int(x as int),
{
    let mut out = String::new();
    let magnitude: u64 = if x < 0 {
        (-(x as i64)) as u64
    } else {
        x as u64
    };
    if x < 0 {
        proof {
            reveal_strlit("-");
        }
        out.append("-");
    }
    append_u64(&mut out, magnitude);
    proof {
        if x < 0 {
            assert("-"@ =~= seq!['-']);
            assert((Seq::<char>::empty() + "-"@) + dec_digits(magnitude as nat) =~= dec_int(
                x as int,
            ));
        } else {
            assert(Seq::<char>::empty() + dec_digits(magnitude as nat) =~= dec_int(x as int));
        }
    }
    out
}

/// One labelled report line: the label followed by already-rendered text.
fn labelled_line(label: &str, text: &str) -> (r: String)
    ensures
        r@ == label@ + text@,
{
    let mut out = label.to_owned();
    out.append(text);
    out
}

/// The report lines in their fixed order: the computed value, the
/// accumulator contents when they are to be shown, a blank line, the
/// metrics header, and the five metric fields.  The processor-usage
/// fields arrive as text already rendered by the host; every other
/// numeric field is rendered here and is non-negative by type.
pub fn metrics_lines(
    value: i32,
    words: Option<&String>,
    time_us: u64,
    memory_before_kb: u64,
    memory_after_kb: u64,
    cpu_before: &str,
    cpu_after: &str,
) -> (r: Vec<String>)
    ensures
        r@.len() == (if words is Some { 9int } else { 8int }),
        r@[0]@ == "value="@ + dec_int(value as int),
        words matches Some(w) ==> r@[1]@ == "words="@ + w@,
        r@[r@.len() - 7]@ == ""@,
        r@[r@.len() - 6]@ == "--- METRICS ---"@,
        r@[r@.len() - 5]@ == "time_us="@ + dec_digits(time_us as nat) + " in microseconds"@,
        r@[r@.len() - 4]@ == "memory_before_kb="@ + dec_digits(memory_before_kb as nat),
        r@[r@.len() - 3]@ == "memory_after_kb="@ + dec_digits(memory_after_kb as nat),
        r@[r@.len() - 2]@ == "cpu_before_percent="@ + cpu_before@,
        r@[r@.len() - 1]@ == "cpu_after_percent="@ + cpu_after@,
{
    let mut lines: Vec<String> = Vec::new();

    let mut value_line = "value=".to_owned();
    let rendered = i32_string(value);
    value_line.append(rendered.as_str());
    lines.push(value_line);

    match words {
        Some(w) => {
            lines.push(labelled_line("words=", w.as_str()));
        },
        None => {},
    }

    lines.push("".to_owned());
    lines.push("--- METRICS ---".to_owned());

    let mut time_line = "time_us=".to_owned();
    let time_text = u64_string(time_us);
    time_line.append(time_text.as_str());
    time_line.append(" in microseconds");
    lines.push(time_line);

    let mem_before_text = u64_string(memory_before_kb);
    lines.push(labelled_line("memory_before_kb=", mem_before_text.as_str()));
    let mem_after_text = u64_string(memory_after_kb);
    lines.push(labelled_line("memory_after_kb=", mem_after_text.as_str()));

    lines.push(labelled_line("cpu_before_percent=", cpu_before));
    lines.push(labelled_line("cpu_after_percent=", cpu_after));

    lines
}

} // verus!
