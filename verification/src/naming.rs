use vstd::prelude::*;
use vstd::string::*;

verus! {

/// The character of the decimal digit `d`.
pub open spec fn digit_of(d: int) -> char {
    if d == 0 {
        '0'
    } else if d == 1 {
        '1'
    } else if d == 2 {
        '2'
    } else if d == 3 {
        '3'
    } else if d == 4 {
        '4'
    } else if d == 5 {
        '5'
    } else if d == 6 {
        '6'
    } else if d == 7 {
        '7'
    } else if d == 8 {
        '8'
    } else {
        '9'
    }
}

/// `n` written in decimal, without leading zeros.
pub open spec fn decimal(n: nat) -> Seq<char>
    decreases n,
{
    if n < 10 {
        seq![digit_of(n as int)]
    } else {
        decimal(n / 10).push(digit_of((n % 10) as int))
    }
}

/// The file name of the clip of segment `index`.
pub open spec fn clip_name_of(index: nat) -> Seq<char> {
    "output"@ + decimal(index) + ".mp4"@
}

/// The file name of the subtitle document of segment `index`.
pub open spec fn subtitle_name_of(index: nat) -> Seq<char> {
    "sentence"@ + decimal(index) + ".ass"@
}

/// Where the downloaded image of segment `index` is kept.
pub open spec fn image_path_of(index: nat) -> Seq<char> {
    "./temp_files/image"@ + decimal(index) + ".png"@
}

/// The manifest line that names the clip of segment `index`.
pub open spec fn manifest_line_of(index: nat) -> Seq<char> {
    "file '"@ + clip_name_of(index) + "'\n"@
}

fn digit(d: usize) -> (r: &'static str)
    requires
        d < 10,
    ensures
        r@ == seq![digit_of(d as int)],
{
    proof {
        reveal_strlit("0");
        reveal_strlit("1");
        reveal_strlit("2");
        reveal_strlit("3");
        reveal_strlit("4");
        reveal_strlit("5");
        reveal_strlit("6");
        reveal_strlit("7");
        reveal_strlit("8");
        reveal_strlit("9");
    }
    let r = if d == 0 {
        "0"
    } else if d == 1 {
        "1"
    } else if d == 2 {
        "2"
    } else if d == 3 {
        "3"
    } else if d == 4 {
        "4"
    } else if d == 5 {
        "5"
    } else if d == 6 {
        "6"
    } else if d == 7 {
        "7"
    } else if d == 8 {
        "8"
    } else {
        "9"
    };
    assert(r@ =~= seq![digit_of(d as int)]);
    r
}

/// `n` written in decimal.
pub fn decimal_string(n: usize) -> (r: String)
    ensures
        r@ == decimal(n as nat),
    decreases n,
{
    if n < 10 {
        String::from_str(digit(n))
    } else {
        let mut out = decimal_string(n / 10);
        out.append(digit(n % 10));
        assert(out@ =~= decimal((n / 10) as nat).push(digit_of((n % 10) as int)));
        out
    }
}

/// The file name of the clip of segment `index`: `output`, the index, `.mp4`.
pub fn clip_name(index: usize) -> (r: String)
    ensures
        r@ == clip_name_of(index as nat),
{
    let mut out = String::from_str("output");
    out.append(decimal_string(index).as_str());
    out.append(".mp4");
    out
}

/// The file name of the subtitle document of segment `index`.
pub fn subtitle_name(index: usize) -> (r: String)
    ensures
        r@ == subtitle_name_of(index as nat),
{
    let mut out = String::from_str("sentence");
    out.append(decimal_string(index).as_str());
    out.append(".ass");
    out
}

/// Where the downloaded image of segment `index` is kept.
pub fn image_path(index: usize) -> (r: String)
    ensures
        r@ == image_path_of(index as nat),
{
    let mut out = String::from_str("./temp_files/image");
    out.append(decimal_string(index).as_str());
    out.append(".png");
    out
}

/// The manifest line that names the clip of segment `index`.
pub fn manifest_line(index: usize) -> (r: String)
    ensures
        r@ == manifest_line_of(index as nat),
{
    let mut out = String::from_str("file '");
    out.append(clip_name(index).as_str());
    out.append("'\n");
    out
}

} // verus!
