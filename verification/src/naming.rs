use vstd::prelude::*;
use vstd::string::StringExecFns;

verus! {

/// The character for one decimal digit.
pub open spec fn digit_char(d: nat) -> char {
    if d == 0 {
        '0'
    } else if d == 1 {
        '1'
    } else if d == 2 {
        '2'
    } else if d == 3 {
        '3'
    } else if d == 4 {
        '4'
    } else if d == 5 {
        '5'
    } else if d == 6 {
        '6'
    } else if d == 7 {
        '7'
    } else if d == 8 {
        '8'
    } else {
        '9'
    }
}

/// The digit that a character stands for; 0 for any other character.
pub open spec fn digit_value(c: char) -> nat {
    if c == '1' {
        1
    } else if c == '2' {
        2
    } else if c == '3' {
        3
    } else if c == '4' {
        4
    } else if c == '5' {
        5
    } else if c == '6' {
        6
    } else if c == '7' {
        7
    } else if c == '8' {
        8
    } else if c == '9' {
        9
    } else {
        0
    }
}

/// Decimal notation of `n`, most significant digit first, without leading
/// zeros; one digit for zero.
pub open spec fn decimal_digits(n: nat) -> Seq<char>
    decreases n,
{
    if n < 10 {
        seq![digit_char(n)]
    } else {
        decimal_digits(n / 10).push(digit_char(n % 10))
    }
}

/// The number that a sequence of digits denotes.
pub open spec fn decimal_value(digits: Seq<char>) -> nat
    decreases digits.len(),
{
    if digits.len() == 0 {
        0
    } else {
        10 * decimal_value(digits.drop_last()) + digit_value(digits.last())
    }
}

/// `count` zeros.
pub open spec fn zeros(count: nat) -> Seq<char> {
    Seq::new(count, |i: int| '0')
}

/// Decimal notation of `n`, filled up with zeros on the left to at least
/// `width` digits.
pub open spec fn zero_padded(n: nat, width: nat) -> Seq<char> {
    let digits = decimal_digits(n);
    if digits.len() >= width {
        digits
    } else {
        zeros((width - digits.len()) as nat) + digits
    }
}

/// One digit as text.
fn digit_str(d: u32) -> (s: &'static str)
    requires
        d < 10,
    ensures
        s@ == seq![digit_char(d as nat)],
{
    proof {
        reveal_strlit("0");
        reveal_strlit("1");
        reveal_strlit("2");
        reveal_strlit("3");
        reveal_strlit("4");
        reveal_strlit("5");
        reveal_strlit("6");
        reveal_strlit("7");
        reveal_strlit("8");
        reveal_strlit("9");
    }
    let s = if d == 0 {
        "0"
    } else if d == 1 {
        "1"
    } else if d == 2 {
        "2"
    } else if d == 3 {
        "3"
    } else if d == 4 {
        "4"
    } else if d == 5 {
        "5"
    } else if d == 6 {
        "6"
    } else if d == 7 {
        "7"
    } else if d == 8 {
        "8"
    } else {
        "9"
    };
    assert(s@ =~= seq![digit_char(d as nat)]);
    s
}

/// Appends the decimal notation of `n` to `text`.
pub fn push_decimal(text: &mut String, n: u32)
    ensures
        final(text)@ == old(text)@ + decimal_digits(n as nat),
    decreases n,
{
    if n >= 10 {
        push_decimal(text, n / 10);
    }
    text.append(digit_str(n % 10));
    assert(text@ =~= old(text)@ + decimal_digits(n as nat));
}

/// Number of digits in the decimal notation of `n`.
pub fn decimal_len(n: u32) -> (len: usize)
    ensures
        len == decimal_digits(n as nat).len(),
        1 <= len <= 10,
{
    proof {
        reveal_with_fuel(decimal_digits, 11);
    }
    if n < 10 {
        1
    } else if n < 100 {
        2
    } else if n < 1_000 {
        3
    } else if n < 10_000 {
        4
    } else if n < 100_000 {
        5
    } else if n < 1_000_000 {
        6
    } else if n < 10_000_000 {
        7
    } else if n < 100_000_000 {
        8
    } else if n < 1_000_000_000 {
        9
    } else {
        10
    }
}

/// Appends the decimal notation of `n` to `text`, filled up with zeros on
/// the left to at least `width` digits.
pub fn push_zero_padded(text: &mut String, n: u32, width: usize)
    ensures
        final(text)@ == old(text)@ + zero_padded(n as nat, width as nat),
{
    let len = decimal_len(n);
    let mut filled: usize = len;
    while filled < width
        invariant
            len <= filled,
            filled <= width || filled == len,
            text@ == old(text)@ + zeros((filled - len) as nat),
        decreases width - filled,
    {
        text.append("0");
        proof {
            reveal_strlit("0");
            assert(text@ =~= old(text)@ + zeros((filled + 1 - len) as nat));
        }
        filled = filled + 1;
    }
    push_decimal(text, n);
    proof {
        let digits = decimal_digits(n as nat);
        if len >= width {
            assert(zeros(0) =~= Seq::<char>::empty());
            assert(text@ =~= old(text)@ + digits);
        } else {
            assert(text@ =~= old(text)@ + (zeros((width - len) as nat) + digits));
        }
    }
}

/// Name of the file that holds frame `index`: the word `frame_`, the index in
/// at least six digits, and the ending `.png`.
pub open spec fn spec_frame_file_name(index: nat) -> Seq<char> {
    "frame_"@ + zero_padded(index, 6) + ".png"@
}

/// Name of the file that holds frame `index`.
pub fn frame_file_name(index: u32) -> (name: String)
    ensures
        name@ == spec_frame_file_name(index as nat),
{
    let mut name = String::from_str("frame_");
    push_zero_padded(&mut name, index, 6);
    name.append(".png");
    name
}

/// The line that reports frame `index` of `total` as written to `path`; it
/// counts frames from one.
pub open spec fn spec_progress_line(index: nat, total: nat, path: Seq<char>) -> Seq<char> {
    "frame "@ + decimal_digits(index + 1) + "/"@ + decimal_digits(total) + " -> "@ + path
}

/// The line that reports frame `index` of `total` as written to `path`.
pub fn progress_line(index: u32, total: u32, path: &str) -> (line: String)
    requires
        index < total,
    ensures
        line@ == spec_progress_line(index as nat, total as nat, path@),
{
    let mut line = String::from_str("frame ");
    push_decimal(&mut line, index + 1);
    line.append("/");
    push_decimal(&mut line, total);
    line.append(" -> ");
    line.append(path);
    line
}

/// The command that joins the frames under `dir` into a video at `fps`
/// frames a second.
pub open spec fn spec_mux_hint(fps: nat, dir: Seq<char>) -> Seq<char> {
    "ffmpeg -framerate "@ + decimal_digits(fps) + " -i "@ + dir
        + "/frame_%06d.png -c:v libx264 -pix_fmt yuv420p out/mandelbrot.mp4"@
}

/// The command that joins the frames under `dir` into a video.
pub fn mux_hint(fps: u32, dir: &str) -> (hint: String)
    ensures
        hint@ == spec_mux_hint(fps as nat, dir@),
{
    let mut hint = String::from_str("ffmpeg -framerate ");
    push_decimal(&mut hint, fps);
    hint.append(" -i ");
    hint.append(dir);
    hint.append("/frame_%06d.png -c:v libx264 -pix_fmt yuv420p out/mandelbrot.mp4");
    hint
}

/// Decimal notation denotes the number it was written for.
pub proof fn lemma_decimal_round_trip(n: nat)
    ensures
        decimal_value(decimal_digits(n)) == n,
    decreases n,
{
    let digits = decimal_digits(n);
    if n < 10 {
        assert(digits.drop_last() =~= Seq::<char>::empty());
        assert(decimal_value(digits.drop_last()) == 0);
        assert(digits.last() == digit_char(n));
    } else {
        lemma_decimal_round_trip(n / 10);
        assert(digits.drop_last() =~= decimal_digits(n / 10));
        assert(digits.last() == digit_char(n % 10));
    }
}

/// Zeros on the left do not change the number denoted.
pub proof fn lemma_leading_zeros_vanish(count: nat, digits: Seq<char>)
    ensures
        decimal_value(zeros(count) + digits) == decimal_value(digits),
    decreases digits.len(), count,
{
    let all = zeros(count) + digits;
    if digits.len() > 0 {
        lemma_leading_zeros_vanish(count, digits.drop_last());
        assert(all.drop_last() =~= zeros(count) + digits.drop_last());
        assert(all.last() == digits.last());
    } else if count > 0 {
        lemma_leading_zeros_vanish((count - 1) as nat, digits);
        assert(all.drop_last() =~= zeros((count - 1) as nat) + digits);
        assert(all.last() == '0');
    } else {
        assert(all =~= digits);
    }
}

/// A zero-padded number has at least the width asked for and denotes the
/// number it was written for.
pub proof fn lemma_zero_padded_round_trip(n: nat, width: nat)
    ensures
        zero_padded(n, width).len() >= width,
        zero_padded(n, width).len() >= decimal_digits(n).len(),
        decimal_value(zero_padded(n, width)) == n,
{
    let digits = decimal_digits(n);
    lemma_decimal_round_trip(n);
    if digits.len() < width {
        lemma_leading_zeros_vanish((width - digits.len()) as nat, digits);
    }
}

/// Different frames go to different files.
pub proof fn lemma_file_names_differ(a: nat, b: nat)
    requires
        a != b,
    ensures
        spec_frame_file_name(a) != spec_frame_file_name(b),
{
    reveal_strlit("frame_");
    reveal_strlit(".png");
    let pa = zero_padded(a, 6);
    let pb = zero_padded(b, 6);
    let na = spec_frame_file_name(a);
    let nb = spec_frame_file_name(b);
    lemma_zero_padded_round_trip(a, 6);
    lemma_zero_padded_round_trip(b, 6);
    if na == nb {
        assert(na.len() == 6 + pa.len() + 4);
        assert(nb.len() == 6 + pb.len() + 4);
        assert(na.subrange(6, 6 + pa.len() as int) =~= pa);
        assert(nb.subrange(6, 6 + pb.len() as int) =~= pb);
        assert(pa == pb);
    }
}

} // verus!
