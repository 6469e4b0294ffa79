//! Text layout: numbers as text, padding and columns, and status lines.
use vstd::prelude::*;
use crate::output_format::OutputFormat;

verus! {

/// The character of a decimal digit.
pub open spec fn digit_char(d: nat) -> char {
    if d == 0 { '0' }
    else if d == 1 { '1' }
    else if d == 2 { '2' }
    else if d == 3 { '3' }
    else if d == 4 { '4' }
    else if d == 5 { '5' }
    else if d == 6 { '6' }
    else if d == 7 { '7' }
    else if d == 8 { '8' }
    else { '9' }
}

/// The decimal representation of a natural number, without leading zeros.
pub open spec fn decimal_text(n: nat) -> Seq<char>
    decreases n,
{
    if n < 10 {
        seq![digit_char(n)]
    } else {
        decimal_text(n / 10).push(digit_char(n % 10))
    }
}

/// The decimal representation of an integer, with a leading minus sign when negative.
pub open spec fn signed_decimal_text(n: int) -> Seq<char> {
    if n < 0 {
        seq!['-'] + decimal_text((-n) as nat)
    } else {
        decimal_text(n as nat)
    }
}

fn digit_str(d: u64) -> (r: &'static str)
    requires
        d < 10,
    ensures
        r@ == seq![digit_char(d as nat)],
{
    proof {
        reveal_strlit("0");
        reveal_strlit("1");
        reveal_strlit("2");
        reveal_strlit("3");
        reveal_strlit("4");
        reveal_strlit("5");
        reveal_strlit("6");
        reveal_strlit("7");
        reveal_strlit("8");
        reveal_strlit("9");
    }
    if d == 0 { "0" }
    else if d == 1 { "1" }
    else if d == 2 { "2" }
    else if d == 3 { "3" }
    else if d == 4 { "4" }
    else if d == 5 { "5" }
    else if d == 6 { "6" }
    else if d == 7 { "7" }
    else if d == 8 { "8" }
    else { "9" }
}

/// Decimal text of an unsigned number.
pub fn u64_text(n: u64) -> (r: String)
    ensures
        r@ == decimal_text(n as nat),
    decreases n,
{
    if n < 10 {
        String::from_str(digit_str(n))
    } else {
        let mut s = u64_text(n / 10);
        s.append(digit_str(n % 10));
        s
    }
}

/// Decimal text of a wide unsigned number.
pub fn u128_text(n: u128) -> (r: String)
    ensures
        r@ == decimal_text(n as nat),
    decreases n,
{
    if n < 10 {
        String::from_str(digit_str(n as u64))
    } else {
        let mut s = u128_text(n / 10);
        s.append(digit_str((n % 10) as u64));
        s
    }
}

/// Decimal text of a signed number.
pub fn i64_text(n: i64) -> (r: String)
    ensures
        r@ == signed_decimal_text(n as int),
{
    if n < 0 {
        let magnitude: u64 = (0i128 - n as i128) as u64;
        let digits = u64_text(magnitude);
        proof {
            reveal_strlit("-");
        }
        String::from_str("-").concat(digits.as_str())
    } else {
        u64_text(n as u64)
    }
}

/// `n` spaces.
pub open spec fn spaces(n: nat) -> Seq<char> {
    Seq::new(n, |_i: int| ' ')
}

/// `s` centred in `width` columns; the odd column of padding goes right.
/// Text as wide as the field or wider is left as it is.
pub open spec fn centered(s: Seq<char>, width: nat) -> Seq<char> {
    if s.len() >= width {
        s
    } else {
        let pad = (width - s.len()) as nat;
        spaces(pad / 2) + s + spaces((pad - pad / 2) as nat)
    }
}

/// `s` padded on the right to `width` columns.
pub open spec fn left_aligned(s: Seq<char>, width: nat) -> Seq<char> {
    if s.len() >= width {
        s
    } else {
        s + spaces((width - s.len()) as nat)
    }
}

/// `s` padded on the left to `width` columns.
pub open spec fn right_aligned(s: Seq<char>, width: nat) -> Seq<char> {
    if s.len() >= width {
        s
    } else {
        spaces((width - s.len()) as nat) + s
    }
}

/// `s` written `n` times.
pub open spec fn repeated(s: Seq<char>, n: nat) -> Seq<char>
    decreases n,
{
    if n == 0 {
        Seq::empty()
    } else {
        repeated(s, (n - 1) as nat) + s
    }
}

/// A line of three columns: `left` flush left and `right` flush right, each
/// in a third of `width`, and `center` centred in what remains.
pub open spec fn lcr_line(left: Seq<char>, center: Seq<char>, right: Seq<char>, width: nat) -> Seq<
    char,
> {
    let col = width / 3;
    left_aligned(left, col) + centered(center, (col + width % 3) as nat) + right_aligned(right, col)
}

/// A string of `n` spaces.
pub fn spaces_string(n: usize) -> (r: String)
    ensures
        r@ == spaces(n as nat),
{
    let mut r = String::new();
    let mut i: usize = 0;
    proof {
        reveal_strlit(" ");
    }
    while i < n
        invariant
            i <= n,
            r@ == spaces(i as nat),
        decreases n - i,
    {
        proof {
            reveal_strlit(" ");
        }
        r.append(" ");
        assert(r@ =~= spaces((i + 1) as nat));
        i = i + 1;
    }
    r
}

/// `text` centred in `width` columns.
pub fn center_in(text: &str, width: usize) -> (r: String)
    ensures
        r@ == centered(text@, width as nat),
{
    let len = text.unicode_len();
    if len >= width {
        return String::from_str(text);
    }
    let pad = width - len;
    let mut r = spaces_string(pad / 2);
    r.append(text);
    let right = spaces_string(pad - pad / 2);
    r.append(right.as_str());
    r
}

/// `text` padded on the right to `width` columns.
pub fn left_in(text: &str, width: usize) -> (r: String)
    ensures
        r@ == left_aligned(text@, width as nat),
{
    let len = text.unicode_len();
    if len >= width {
        return String::from_str(text);
    }
    let mut r = String::from_str(text);
    let pad = spaces_string(width - len);
    r.append(pad.as_str());
    r
}

/// `text` padded on the left to `width` columns.
pub fn right_in(text: &str, width: usize) -> (r: String)
    ensures
        r@ == right_aligned(text@, width as nat),
{
    let len = text.unicode_len();
    if len >= width {
        return String::from_str(text);
    }
    let mut r = spaces_string(width - len);
    r.append(text);
    r
}

/// Three texts laid out as left, centre and right columns over `width`.
pub fn lcr_in(left: &str, center: &str, right: &str, width: usize) -> (r: String)
    ensures
        r@ == lcr_line(left@, center@, right@, width as nat),
{
    let col = width / 3;
    let mut r = left_in(left, col);
    let c = center_in(center, col + width % 3);
    r.append(c.as_str());
    let rt = right_in(right, col);
    r.append(rt.as_str());
    r
}

/// `text` written `n` times.
pub fn repeat_in(text: &str, n: usize) -> (r: String)
    ensures
        r@ == repeated(text@, n as nat),
{
    let mut r = String::new();
    let mut i: usize = 0;
    while i < n
        invariant
            i <= n,
            r@ == repeated(text@, i as nat),
        decreases n - i,
    {
        r.append(text);
        i = i + 1;
    }
    r
}

/// Relies on terminal_size::terminal_size: the columns and rows of the
/// terminal on standard output, or `None` when it is not a terminal.
#[verifier::external_body]
fn terminal_dimensions() -> (r: Option<(u16, u16)>) {
    terminal_size::terminal_size().map(|(w, h)| (w.0, h.0))
}

/// The size of the terminal as (columns, rows); 120 by 30 when standard
/// output is not a terminal, as inside a pipeline.
pub fn get_terminal_size() -> (r: (usize, usize))
    ensures
        r.0 <= 0xffff,
        r.1 <= 0xffff,
{
    match terminal_dimensions() {
        Some((w, h)) => (w as usize, h as usize),
        None => (120, 30),
    }
}

/// The size of the terminal as (columns, rows), as `get_terminal_size` gives it.
pub fn tui_get_terminal_size() -> (r: (usize, usize))
    ensures
        r.0 <= 0xffff,
        r.1 <= 0xffff,
{
    get_terminal_size()
}

/// `text` centred on the terminal's width.
pub fn tui_center_text(text: &String) -> (r: String)
    ensures
        exists|w: nat| r@ == #[trigger] centered(text@, w),
{
    let (width, _) = tui_get_terminal_size();
    center_in(text.as_str(), width)
}

/// The text of an optional string; empty when absent.
pub open spec fn opt_text(s: Option<String>) -> Seq<char> {
    match s {
        Some(t) => t@,
        None => Seq::empty(),
    }
}

/// A line of three columns over the terminal's width; a missing text is empty.
pub fn tui_lcr_text(left: Option<String>, center: Option<String>, right: Option<String>) -> (r:
    String)
    ensures
        exists|w: nat|
            r@ == #[trigger] lcr_line(opt_text(left), opt_text(center), opt_text(right), w),
{
    let (width, _) = tui_get_terminal_size();
    let l = match left {
        Some(s) => s,
        None => String::new(),
    };
    let c = match center {
        Some(s) => s,
        None => String::new(),
    };
    let rt = match right {
        Some(s) => s,
        None => String::new(),
    };
    assert(l@ == opt_text(left) && c@ == opt_text(center) && rt@ == opt_text(right));
    let r = lcr_in(l.as_str(), c.as_str(), rt.as_str(), width);
    assert(r@ == lcr_line(opt_text(left), opt_text(center), opt_text(right), width as nat));
    r
}

/// `in_char` repeated across the terminal's width.
pub fn tui_separator_bar(in_char: &str) -> (r: String)
    ensures
        exists|w: nat| r@ == #[trigger] repeated(in_char@, w),
{
    let (width, _) = tui_get_terminal_size();
    repeat_in(in_char, width)
}

/// The status line for talking to the provider about `action`.
pub open spec fn comms_text(action: Option<String>) -> Seq<char> {
    match action {
        Some(a) => "Talking to AWS ("@ + a@ + ")..."@,
        None => "Talking to AWS..."@,
    }
}

/// Status lines shown while a command works. When the output format
/// leaves no room for free text, every status line is suppressed: each
/// method returns the line to show, or `None`.
pub struct Textutil {
    /// If true, output is suppressed.
    pub mute: bool,
}

impl Textutil {
    pub fn new(output_format: OutputFormat) -> (r: Textutil)
        ensures
            r.mute == (output_format != OutputFormat::Tabular),
    {
        Textutil { mute: !output_format.supports_free_text_output() }
    }

    /// `text` centred on the terminal's width.
    pub fn center_text(&self, text: String) -> (r: String)
        ensures
            exists|w: nat| r@ == #[trigger] centered(text@, w),
    {
        let (width, _) = get_terminal_size();
        center_in(text.as_str(), width)
    }

    /// The status line saying that the provider is being talked to.
    pub fn notify_comms(&self, action: Option<String>) -> (r: Option<String>)
        ensures
            self.mute ==> r is None,
            !self.mute ==> (r matches Some(s) && s@ == comms_text(action)),
    {
        if self.mute {
            return None;
        }
        proof {
            reveal_strlit("Talking to AWS (");
            reveal_strlit(")...");
            reveal_strlit("Talking to AWS...");
        }
        match action {
            Some(a) => {
                let mut s = String::from_str("Talking to AWS (");
                s.append(a.as_str());
                s.append(")...");
                Some(s)
            },
            None => Some(String::from_str("Talking to AWS...")),
        }
    }

    /// The status line `string`.
    pub fn notify(&self, string: String) -> (r: Option<String>)
        ensures
            self.mute ==> r is None,
            !self.mute ==> (r matches Some(s) && s@ == string@),
    {
        if self.mute {
            None
        } else {
            Some(string)
        }
    }

    /// The status line saying that data is being put together.
    pub fn notify_working(&self) -> (r: Option<String>)
        ensures
            self.mute ==> r is None,
            !self.mute ==> (r matches Some(s) && s@ == "Marshalling data..."@),
    {
        self.notify(String::from_str("Marshalling data..."))
    }

    /// Whether the status line is to be cleared.
    pub fn notify_clear(&self) -> (r: bool)
        ensures
            r == !self.mute,
    {
        !self.mute
    }

    /// A duration in seconds as hours, minutes and seconds, such as `1h2m3s`.
    pub fn to_hms(&self, duration: u64) -> (r: String)
        ensures
            r@ == decimal_text((duration / 60 / 60) as nat) + "h"@ + decimal_text(
                ((duration / 60) % 60) as nat,
            ) + "m"@ + decimal_text((duration % 60) as nat) + "s"@,
    {
        let seconds = duration % 60;
        let minutes = (duration / 60) % 60;
        let hours = (duration / 60) / 60;
        let mut r = u64_text(hours);
        r.append("h");
        let m = u64_text(minutes);
        r.append(m.as_str());
        r.append("m");
        let sec = u64_text(seconds);
        r.append(sec.as_str());
        r.append("s");
        r
    }
}

} // verus!
