use vstd::prelude::*;
use vstd::utf8::{valid_utf8, decode_utf8, encode_utf8_decode_utf8};
use vstd::string::StringSliceAdditionalSpecFns;

verus! {

/// The text that the kernel has sent to the console, one character per
/// `console_putchar` call, in order.
pub struct Console {
    out: Vec<char>,
}

impl View for Console {
    type V = Seq<char>;

    closed spec fn view(&self) -> Seq<char> {
        self.out@
    }
}

impl Console {
    /// An empty console.
    pub fn new() -> (c: Console)
        ensures
            c@ == Seq::<char>::empty(),
    {
        Console { out: Vec::new() }
    }

    /// The characters sent so far.
    pub fn output(&self) -> (r: &Vec<char>)
        ensures
            r@ == self@,
    {
        &self.out
    }

    /// Sends one character.
    pub fn put_char(&mut self, c: char)
        ensures
            final(self)@ == old(self)@.push(c),
    {
        self.out.push(c);
    }

    /// Sends every character of `s`, in order.
    pub fn write_str(&mut self, s: &str)
        ensures
            final(self)@ == old(self)@ + s@,
    {
        let ghost start = self@;
        for c in it: s.chars()
            invariant
                self@ == start + it.seq().take(it.index() as int),
                it.seq() == s@,
        {
            self.out.push(c);
        }
    }
}

/// The character that stands for the digit `d` (below sixteen): `0`-`9`, then `a`-`f`.
pub open spec fn digit_char(d: nat) -> char {
    if d == 0 { '0' } else if d == 1 { '1' } else if d == 2 { '2' } else if d == 3 { '3' }
    else if d == 4 { '4' } else if d == 5 { '5' } else if d == 6 { '6' } else if d == 7 { '7' }
    else if d == 8 { '8' } else if d == 9 { '9' } else if d == 10 { 'a' } else if d == 11 { 'b' }
    else if d == 12 { 'c' } else if d == 13 { 'd' } else if d == 14 { 'e' } else { 'f' }
}

/// `n` written in decimal, without leading zeros (`{}`).
pub open spec fn dec(n: nat) -> Seq<char>
    decreases n,
{
    if n < 10 {
        seq![digit_char(n)]
    } else {
        dec(n / 10).push(digit_char(n % 10))
    }
}

/// `n` written in lowercase hexadecimal digits, without leading zeros (`{:x}`).
pub open spec fn hex_digits(n: nat) -> Seq<char>
    decreases n,
{
    if n < 16 {
        seq![digit_char(n)]
    } else {
        hex_digits(n / 16).push(digit_char(n % 16))
    }
}

/// `n` in the alternate hexadecimal form `{:#x}`: `0x` and the digits.
pub open spec fn hex(n: nat) -> Seq<char> {
    seq!['0', 'x'] + hex_digits(n)
}

/// A signed number in decimal (`{}`): a minus sign before the magnitude when negative.
pub open spec fn signed_dec(n: int) -> Seq<char> {
    if n < 0 {
        seq!['-'] + dec((-n) as nat)
    } else {
        dec(n as nat)
    }
}

/// `n` in decimal, padded on the left with zeros to at least `width` digits (`{:0width$}`).
pub open spec fn dec_padded(n: nat, width: nat) -> Seq<char> {
    let d = dec(n);
    if d.len() >= width {
        d
    } else {
        Seq::new((width - d.len()) as nat, |i: int| '0') + d
    }
}

fn digit(d: usize) -> (c: char)
    requires
        d < 16,
    ensures
        c == digit_char(d as nat),
{
    if d == 0 { '0' } else if d == 1 { '1' } else if d == 2 { '2' } else if d == 3 { '3' }
    else if d == 4 { '4' } else if d == 5 { '5' } else if d == 6 { '6' } else if d == 7 { '7' }
    else if d == 8 { '8' } else if d == 9 { '9' } else if d == 10 { 'a' } else if d == 11 { 'b' }
    else if d == 12 { 'c' } else if d == 13 { 'd' } else if d == 14 { 'e' } else { 'f' }
}

/// The digits of `n` in decimal, as a vector.
pub fn dec_chars(n: usize) -> (r: Vec<char>)
    ensures
        r@ == dec(n as nat),
{
    let mut q = n;
    let mut buf: Vec<char> = Vec::new();
    while q >= 10
        invariant
            dec(n as nat) == dec(q as nat) + buf@,
        decreases q,
    {
        let d = digit(q % 10);
        proof {
            assert(dec(q as nat) == dec((q / 10) as nat).push(digit_char((q % 10) as nat)));
            assert(dec((q / 10) as nat).push(d) + buf@ =~= dec((q / 10) as nat) + seq![d].add(buf@));
        }
        buf.insert(0, d);
        q = q / 10;
    }
    let mut r: Vec<char> = Vec::new();
    r.push(digit(q));
    proof {
        assert(seq![digit_char(q as nat)] + buf@ == r@ + buf@);
    }
    r.append(&mut buf);
    r
}

/// The digits of `n` in hexadecimal, as a vector.
pub fn hex_digit_chars(n: usize) -> (r: Vec<char>)
    ensures
        r@ == hex_digits(n as nat),
{
    let mut q = n;
    let mut buf: Vec<char> = Vec::new();
    while q >= 16
        invariant
            hex_digits(n as nat) == hex_digits(q as nat) + buf@,
        decreases q,
    {
        let d = digit(q % 16);
        proof {
            assert(hex_digits(q as nat) == hex_digits((q / 16) as nat).push(digit_char((q % 16) as nat)));
            assert(hex_digits((q / 16) as nat).push(d) + buf@ =~= hex_digits((q / 16) as nat) + seq![d].add(buf@));
        }
        buf.insert(0, d);
        q = q / 16;
    }
    let mut r: Vec<char> = Vec::new();
    r.push(digit(q));
    r.append(&mut buf);
    r
}

impl Console {
    /// Sends every character of `s`, in order.
    pub fn write_chars(&mut self, s: &Vec<char>)
        ensures
            final(self)@ == old(self)@ + s@,
    {
        let ghost start = self@;
        let mut i: usize = 0;
        while i < s.len()
            invariant
                i <= s.len(),
                self@ == start + s@.take(i as int),
            decreases s.len() - i,
        {
            proof {
                assert(s@.take(i as int).push(s@[i as int]) =~= s@.take(i + 1));
            }
            self.out.push(s[i]);
            i = i + 1;
        }
        proof {
            assert(s@.take(i as int) =~= s@);
        }
    }

    /// Sends `n` in decimal (`{}`).
    pub fn put_dec(&mut self, n: usize)
        ensures
            final(self)@ == old(self)@ + dec(n as nat),
    {
        let d = dec_chars(n);
        self.write_chars(&d);
    }

    /// Sends `n` in the alternate hexadecimal form (`{:#x}`).
    pub fn put_hex(&mut self, n: usize)
        ensures
            final(self)@ == old(self)@ + hex(n as nat),
    {
        let ghost start = self@;
        self.out.push('0');
        self.out.push('x');
        let d = hex_digit_chars(n);
        self.write_chars(&d);
        proof {
            assert(start.push('0').push('x') + hex_digits(n as nat) =~= start + hex(n as nat));
        }
    }

    /// Sends a signed number in decimal (`{}`).
    pub fn put_signed(&mut self, n: i32)
        ensures
            final(self)@ == old(self)@ + signed_dec(n as int),
    {
        let ghost start = self@;
        if n < 0 {
            self.out.push('-');
            let m: u32 = if n == i32::MIN { 2147483648u32 } else { (-n) as u32 };
            assert(m as int == -(n as int));
            let d = dec_chars(m as usize);
            self.write_chars(&d);
            proof {
                assert(start.push('-') + dec(m as nat) =~= start + (seq!['-'] + dec(m as nat)));
            }
        } else {
            self.put_dec(n as usize);
        }
    }
}

/// The value of a digit character: `0`-`9` and `a`-`f`; -1 for any other.
pub open spec fn digit_value(c: char) -> int {
    if '0' <= c && c <= '9' {
        (c as int) - ('0' as int)
    } else if 'a' <= c && c <= 'f' {
        (c as int) - ('a' as int) + 10
    } else {
        -1
    }
}

/// The number that the digits `s` write in base `base`, most significant first.
pub open spec fn digits_value(s: Seq<char>, base: int) -> int
    decreases s.len(),
{
    if s.len() == 0 {
        0
    } else {
        digits_value(s.drop_last(), base) * base + digit_value(s.last())
    }
}

proof fn lemma_digit_char_value(d: nat)
    requires
        d < 16,
    ensures
        digit_value(digit_char(d)) == d,
{
}

proof fn lemma_dec_value(n: nat)
    ensures
        digits_value(dec(n), 10) == n,
        forall|i: int| 0 <= i < dec(n).len() ==> 0 <= #[trigger] digit_value(dec(n)[i]) < 10,
        dec(n).len() >= 1,
        n > 0 ==> dec(n)[0] != '0',
    decreases n,
{
    if n < 10 {
        lemma_digit_char_value(n);
        assert(dec(n).drop_last() =~= Seq::<char>::empty());
        assert(digits_value(dec(n), 10) == digits_value(Seq::<char>::empty(), 10) * 10 + digit_value(digit_char(n)));
    } else {
        lemma_dec_value(n / 10);
        lemma_digit_char_value(n % 10);
        assert(dec(n).drop_last() =~= dec(n / 10));
        assert(dec(n).last() == digit_char(n % 10));
        assert(digits_value(dec(n), 10) == digits_value(dec(n / 10), 10) * 10 + digit_value(digit_char(n % 10)));
        assert((n / 10) * 10 + n % 10 == n) by (nonlinear_arith);
        assert forall|i: int| 0 <= i < dec(n).len() implies 0 <= #[trigger] digit_value(dec(n)[i]) < 10 by {
            if i < dec(n / 10).len() {
                assert(dec(n)[i] == dec(n / 10)[i]);
            }
        }
        assert(dec(n)[0] == dec(n / 10)[0]);
    }
}

proof fn lemma_hex_value(n: nat)
    ensures
        digits_value(hex_digits(n), 16) == n,
        forall|i: int| 0 <= i < hex_digits(n).len() ==> 0 <= #[trigger] digit_value(hex_digits(n)[i]) < 16,
        hex_digits(n).len() >= 1,
        n > 0 ==> hex_digits(n)[0] != '0',
    decreases n,
{
    if n < 16 {
        lemma_digit_char_value(n);
        assert(hex_digits(n).drop_last() =~= Seq::<char>::empty());
        assert(digits_value(hex_digits(n), 16) == digits_value(Seq::<char>::empty(), 16) * 16 + digit_value(digit_char(n)));
    } else {
        lemma_hex_value(n / 16);
        lemma_digit_char_value(n % 16);
        assert(hex_digits(n).drop_last() =~= hex_digits(n / 16));
        assert(hex_digits(n).last() == digit_char(n % 16));
        assert(digits_value(hex_digits(n), 16) == digits_value(hex_digits(n / 16), 16) * 16 + digit_value(digit_char(n % 16)));
        assert((n / 16) * 16 + n % 16 == n) by (nonlinear_arith);
        assert forall|i: int| 0 <= i < hex_digits(n).len() implies 0 <= #[trigger] digit_value(hex_digits(n)[i]) < 16 by {
            if i < hex_digits(n / 16).len() {
                assert(hex_digits(n)[i] == hex_digits(n / 16)[i]);
            }
        }
        assert(hex_digits(n)[0] == hex_digits(n / 16)[0]);
    }
}

/// Law: the decimal form of `n` reads back as `n`: it is made of decimal
/// digits, has no leading zero, and their value in base ten is `n`.
pub proof fn law_dec_reads_back(n: nat)
    ensures
        digits_value(dec(n), 10) == n,
        forall|i: int| 0 <= i < dec(n).len() ==> 0 <= #[trigger] digit_value(dec(n)[i]) < 10,
        n > 0 ==> dec(n)[0] != '0',
        n == 0 ==> dec(n) == seq!['0'],
{
    lemma_dec_value(n);
}

/// Law: the hexadecimal form of `n` reads back as `n`: `0x`, then lowercase
/// hexadecimal digits with no leading zero whose value in base sixteen is `n`.
pub proof fn law_hex_reads_back(n: nat)
    ensures
        hex(n).take(2) == seq!['0', 'x'],
        digits_value(hex(n).skip(2), 16) == n,
        forall|i: int| 2 <= i < hex(n).len() ==> 0 <= #[trigger] digit_value(hex(n)[i]) < 16,
        n > 0 ==> hex(n)[2] != '0',
{
    lemma_hex_value(n);
    assert(hex(n).take(2) =~= seq!['0', 'x']);
    assert(hex(n).skip(2) =~= hex_digits(n));
    assert forall|i: int| 2 <= i < hex(n).len() implies 0 <= #[trigger] digit_value(hex(n)[i]) < 16 by {
        assert(hex(n)[i] == hex_digits(n)[i - 2]);
    }
    assert(hex(n)[2] == hex_digits(n)[0]);
}

/// Concatenation regroups: `(a + b) + c == a + (b + c)`.
pub proof fn lemma_cat<A>(a: Seq<A>, b: Seq<A>, c: Seq<A>)
    ensures
        a + b + c == a + (b + c),
{
    assert(a + b + c =~= a + (b + c));
}

/// A line made of `label`, then `n` in the form `{:#x}`.
pub open spec fn hex_line(label: Seq<char>, n: nat) -> Seq<char> {
    label + hex(n) + "\n"@
}

/// A line made of `label`, then `n` in decimal.
pub open spec fn dec_line(label: Seq<char>, n: nat) -> Seq<char> {
    label + dec(n) + "\n"@
}

/// A line made of `label`, then `text`.
pub open spec fn text_line(label: Seq<char>, text: Seq<char>) -> Seq<char> {
    label + text + "\n"@
}

impl Console {
    /// Sends `label`, `n` in the form `{:#x}`, and a line end.
    pub fn put_hex_line(&mut self, label: &str, n: usize)
        ensures
            final(self)@ == old(self)@ + hex_line(label@, n as nat),
    {
        let ghost start = self@;
        self.write_str(label);
        self.put_hex(n);
        self.write_str("\n");
        proof {
            assert(self@ =~= start + hex_line(label@, n as nat));
        }
    }

    /// Sends `label`, `n` in decimal, and a line end.
    pub fn put_dec_line(&mut self, label: &str, n: usize)
        ensures
            final(self)@ == old(self)@ + dec_line(label@, n as nat),
    {
        let ghost start = self@;
        self.write_str(label);
        self.put_dec(n);
        self.write_str("\n");
        proof {
            assert(self@ =~= start + dec_line(label@, n as nat));
        }
    }

    /// Sends `label`, `text`, and a line end.
    pub fn put_text_line(&mut self, label: &str, text: &str)
        ensures
            final(self)@ == old(self)@ + text_line(label@, text@),
    {
        let ghost start = self@;
        self.write_str(label);
        self.write_str(text);
        self.write_str("\n");
        proof {
            assert(self@ =~= start + text_line(label@, text@));
        }
    }
}

/// `core::str::from_utf8`: the bytes read as a string slice when they are
/// valid UTF-8 (the slice has exactly these bytes), `None` when they are not
/// (the call's error).
#[verifier::external_body]
pub fn str_from_utf8(v: &[u8]) -> (r: Option<&str>)
    ensures
        r is Some <==> valid_utf8(v@),
        r is Some ==> r->0.spec_bytes() == v@,
{
    core::str::from_utf8(v).ok()
}

impl Console {
    /// Sends the characters that the UTF-8 bytes `bytes` encode.
    pub fn write_utf8(&mut self, bytes: &[u8])
        requires
            valid_utf8(bytes@),
        ensures
            final(self)@ == old(self)@ + decode_utf8(bytes@),
    {
        match str_from_utf8(bytes) {
            Some(s) => {
                proof {
                    encode_utf8_decode_utf8(s@);
                }
                self.write_str(s);
            },
            None => {},
        }
    }
}

/// ANSI escape that turns the text red.
pub const ANSI_COLOR_RED: &'static str = "\x1b[31m";
/// ANSI escape that turns the text green.
pub const ANSI_COLOR_GREEN: &'static str = "\x1b[32m";
/// ANSI escape that turns the text yellow.
pub const ANSI_COLOR_YELLOW: &'static str = "\x1b[33m";
/// ANSI escape that turns the text blue.
pub const ANSI_COLOR_BLUE: &'static str = "\x1b[34m";
/// ANSI escape that restores the default colour.
pub const ANSI_COLOR_RESET: &'static str = "\x1b[0m";

/// Writes `text` in `color`: the colour escape, the text, then the reset escape.
pub fn print_color(console: &mut Console, color: &str, text: &str)
    ensures
        final(console)@ == old(console)@ + color@ + text@ + ANSI_COLOR_RESET@,
{
    console.write_str(color);
    console.write_str(text);
    console.write_str(ANSI_COLOR_RESET);
}

/// Writes `s` to the console.
pub fn print(console: &mut Console, s: &str)
    ensures
        final(console)@ == old(console)@ + s@,
{
    console.write_str(s);
}

} // verus!
