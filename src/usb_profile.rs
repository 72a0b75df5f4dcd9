use vstd::prelude::*;

verus! {

/// The USB inventory of the machine, as the platform's system profiler
/// reports it.
#[derive(Debug)]
pub struct UsbRoot {
    pub spusb_data_type: Vec<UsbBus>,
}

/// One USB bus and the devices attached to it.
#[derive(Debug)]
pub struct UsbBus {
    pub items: Vec<UsbNode>,
    pub name: String,
    pub host_controller: Option<String>,
}

/// A USB device or hub.
#[derive(Debug)]
pub struct UsbNode {
    pub name: String,
    pub bcd_device: Option<String>,
    pub location_id: Option<String>,
    pub manufacturer: Option<String>,
    pub product_id: Option<u16>,
    pub serial_num: Option<String>,
    pub vendor_id: Option<u16>,
    /// The devices behind a hub.
    pub items: Option<Vec<UsbNode>>,
    /// The storage media a device exposes.
    pub media: Option<Vec<UsbMedia>>,
}

/// A storage medium of a USB device.
#[derive(Debug)]
pub struct UsbMedia {
    pub name: String,
    pub bsd_name: Option<String>,
    pub usb_interface: Option<u64>,
    pub volumes: Option<Vec<UsbVolume>>,
}

/// A volume on a storage medium.
#[derive(Debug)]
pub struct UsbVolume {
    pub name: String,
    pub bsd_name: Option<String>,
    pub file_system: Option<String>,
    pub iocontent: Option<String>,
    pub mount_point: Option<String>,
    /// The size in human-readable form, such as `255.84 GB`.
    pub size: Option<String>,
    pub size_in_bytes: Option<u64>,
    pub volume_uuid: Option<String>,
}

/// Whether a character has Unicode's `White_Space` property.
pub open spec fn is_white_space(c: char) -> bool {
    let u = c as u32;
    ||| 0x9 <= u <= 0xd
    ||| u == 0x20
    ||| u == 0x85
    ||| u == 0xa0
    ||| u == 0x1680
    ||| 0x2000 <= u <= 0x200a
    ||| u == 0x2028
    ||| u == 0x2029
    ||| u == 0x202f
    ||| u == 0x205f
    ||| u == 0x3000
}

fn white_space(c: char) -> (r: bool)
    ensures
        r == is_white_space(c),
{
    let u = c as u32;
    (0x9 <= u && u <= 0xd) || u == 0x20 || u == 0x85 || u == 0xa0 || u == 0x1680 || (0x2000 <= u
        && u <= 0x200a) || u == 0x2028 || u == 0x2029 || u == 0x202f || u == 0x205f || u == 0x3000
}

/// The first index at or after `i` that holds no white space (or the length).
pub open spec fn skip_space(s: Seq<char>, i: int) -> int
    decreases s.len() - i,
{
    if i < 0 || i >= s.len() {
        s.len() as int
    } else if !is_white_space(s[i]) {
        i
    } else {
        skip_space(s, i + 1)
    }
}

/// The first index at or after `i` that holds white space (or the length).
pub open spec fn skip_word(s: Seq<char>, i: int) -> int
    decreases s.len() - i,
{
    if i < 0 || i >= s.len() {
        s.len() as int
    } else if is_white_space(s[i]) {
        i
    } else {
        skip_word(s, i + 1)
    }
}

/// The first white-space separated word of `s`, or all of `s` when it has
/// no word.
pub open spec fn first_word_or_all(s: Seq<char>) -> Seq<char> {
    let a = skip_space(s, 0);
    if a >= s.len() {
        s
    } else {
        s.subrange(a, skip_word(s, a))
    }
}

/// The value of a hexadecimal digit, or -1 for another character.
pub open spec fn hex_digit_value(c: char) -> int {
    let u = c as u32;
    if 0x30 <= u <= 0x39 {
        u - 0x30
    } else if 0x61 <= u <= 0x66 {
        u - 0x61 + 10
    } else if 0x41 <= u <= 0x46 {
        u - 0x41 + 10
    } else {
        -1
    }
}

pub open spec fn is_hex_digit(c: char) -> bool {
    hex_digit_value(c) >= 0
}

/// The end of the run of hexadecimal digits that starts at `i`.
pub open spec fn hex_run_end(s: Seq<char>, i: int) -> int
    decreases s.len() - i,
{
    if i < 0 || i >= s.len() {
        s.len() as int
    } else if !is_hex_digit(s[i]) {
        i
    } else {
        hex_run_end(s, i + 1)
    }
}

/// Whether `0x` followed by a hexadecimal digit starts at `i`.
pub open spec fn hex_literal_at(s: Seq<char>, i: int) -> bool {
    0 <= i && i + 2 < s.len() && s[i] == '0' && s[i + 1] == 'x' && is_hex_digit(s[i + 2])
}

/// The first index at or after `i` where a hex literal starts, if any.
pub open spec fn hex_literal_from(s: Seq<char>, i: int) -> Option<int>
    decreases s.len() - i,
{
    if i < 0 || i + 2 >= s.len() {
        None
    } else if hex_literal_at(s, i) {
        Some(i)
    } else {
        hex_literal_from(s, i + 1)
    }
}

/// The leftmost match of `0x[0-9a-fA-F]+` in `s`, which runs over every
/// hexadecimal digit that follows the `0x`.
pub open spec fn first_hex_literal(s: Seq<char>) -> Option<Seq<char>> {
    match hex_literal_from(s, 0) {
        Some(p) => Some(s.subrange(p, hex_run_end(s, p + 2))),
        None => None,
    }
}

/// The index after the repeated two-character prefix `ab` starting at `i`.
pub open spec fn skip_pairs(s: Seq<char>, i: int, a: char, b: char) -> int
    decreases s.len() - i,
{
    if i < 0 || i + 2 > s.len() || s[i] != a || s[i + 1] != b {
        i
    } else {
        skip_pairs(s, i + 2, a, b)
    }
}

/// `s` without its leading `0x` prefixes, then without its leading `0X`
/// prefixes.
pub open spec fn strip_hex_prefixes(s: Seq<char>) -> Seq<char> {
    let t = s.subrange(skip_pairs(s, 0, '0', 'x'), s.len() as int);
    t.subrange(skip_pairs(t, 0, '0', 'X'), t.len() as int)
}

/// The value of a sequence of hexadecimal digits.
pub open spec fn hex_value(d: Seq<char>) -> int
    decreases d.len(),
{
    if d.len() == 0 {
        0
    } else {
        16 * hex_value(d.drop_last()) + hex_digit_value(d.last())
    }
}

/// `s` without a leading `+`.
pub open spec fn unsigned_digits(s: Seq<char>) -> Seq<char> {
    if s.len() > 0 && s[0] == '+' {
        s.drop_first()
    } else {
        s
    }
}

pub open spec fn all_hex_digits(d: Seq<char>) -> bool {
    forall|k: int| 0 <= k < d.len() ==> is_hex_digit(#[trigger] d[k])
}

/// A hexadecimal number that fits 16 bits: an optional `+`, then one or more
/// hexadecimal digits.
pub open spec fn hex_u16(s: Seq<char>) -> Option<u16> {
    let d = unsigned_digits(s);
    if d.len() > 0 && all_hex_digits(d) && hex_value(d) <= 0xffff {
        Some(hex_value(d) as u16)
    } else {
        None
    }
}

proof fn lemma_hex_value_step(s: Seq<char>, start: int, i: int)
    requires
        0 <= start <= i < s.len(),
    ensures
        hex_value(s.subrange(start, i + 1)) == 16 * hex_value(s.subrange(start, i))
            + hex_digit_value(s[i]),
{
    let p = s.subrange(start, i + 1);
    assert(p.drop_last() =~= s.subrange(start, i));
    assert(p.last() == s[i]);
}

/// A USB identifier as the system profiler writes it, such as
/// `0x070a  (Vendor Name)`: its first word, the hex literal in that word if
/// there is one, without its `0x` prefix, read as a 16-bit hexadecimal number.
pub open spec fn usb_id_of(s: Seq<char>) -> Option<u16> {
    let word = first_word_or_all(s);
    let literal = match first_hex_literal(word) {
        Some(m) => m,
        None => word,
    };
    hex_u16(strip_hex_prefixes(literal))
}

/// Relies on regex's `Regex::new` and `Regex::find`: the leftmost match of
/// the pattern `0x[0-9a-fA-F]+`, whose greedy repetition takes every
/// hexadecimal digit that follows the `0x`.
#[verifier::external_body]
fn find_hex_literal(s: &str) -> (r: Option<String>)
    ensures
        r is Some <==> first_hex_literal(s@) is Some,
        r matches Some(m) ==> first_hex_literal(s@) == Some(m@),
{
    let re = regex::Regex::new(r"0x[0-9a-fA-F]+").unwrap();
    match re.find(s) {
        Some(m) => Some(m.as_str().to_string()),
        None => None,
    }
}

fn hex_digit(c: char) -> (r: Option<u32>)
    ensures
        r is Some <==> is_hex_digit(c),
        r matches Some(v) ==> v == hex_digit_value(c),
{
    let u = c as u32;
    if 0x30 <= u && u <= 0x39 {
        Some(u - 0x30)
    } else if 0x61 <= u && u <= 0x66 {
        Some(u - 0x61 + 10)
    } else if 0x41 <= u && u <= 0x46 {
        Some(u - 0x41 + 10)
    } else {
        None
    }
}

/// Reads an optional `+` and hexadecimal digits as a 16-bit number.
pub fn parse_hex_digits(s: &str) -> (r: Option<u16>)
    ensures
        r == hex_u16(s@),
{
    let n = s.unicode_len();
    let start: usize = if n > 0 && s.get_char(0) == '+' {
        1
    } else {
        0
    };
    let ghost d = unsigned_digits(s@);
    assert(d =~= s@.subrange(start as int, n as int));
    if start == n {
        return None;
    }
    let mut acc: u32 = 0;
    let mut over = false;
    let mut i: usize = start;
    while i < n
        invariant
            n == s@.len(),
            start <= i <= n,
            d == s@.subrange(start as int, n as int),
            d == unsigned_digits(s@),
            forall|k: int| start <= k < i ==> is_hex_digit(#[trigger] s@[k]),
            !over ==> acc == hex_value(s@.subrange(start as int, i as int)),
            !over ==> acc <= 0xffff,
            over ==> hex_value(s@.subrange(start as int, i as int)) > 0xffff,
        decreases n - i,
    {
        let c = s.get_char(i);
        let v = match hex_digit(c) {
            Some(v) => v,
            None => {
                assert(d[i - start] == c);
                assert(!all_hex_digits(d));
                return None;
            },
        };
        proof {
            lemma_hex_value_step(s@, start as int, i as int);
        }
        if !over {
            acc = acc * 16 + v;
            if acc > 0xffff {
                over = true;
            }
        }
        i = i + 1;
    }
    assert(s@.subrange(start as int, n as int) == d);
    assert forall|k: int| 0 <= k < d.len() implies is_hex_digit(#[trigger] d[k]) by {
        assert(d[k] == s@[start + k]);
    }
    if over {
        None
    } else {
        Some(acc as u16)
    }
}

/// Reads a USB identifier as the system profiler writes it, such as
/// `0x070a  (Vendor Name)`; `None` when it is not a 16-bit hexadecimal number.
pub fn parse_hex_u16(s: &str) -> (r: Option<u16>)
    ensures
        r == usb_id_of(s@),
{
    let n = s.unicode_len();
    let mut a: usize = 0;
    loop
        invariant
            n == s@.len(),
            a <= n,
            skip_space(s@, 0) == skip_space(s@, a as int),
        ensures
            a <= n,
            skip_space(s@, 0) == a,
        decreases n - a,
    {
        if a == n || !white_space(s.get_char(a)) {
            break;
        }
        a = a + 1;
    }
    let word: String = if a == n {
        String::from_str(s)
    } else {
        let mut b: usize = a;
        loop
            invariant
                n == s@.len(),
                a <= b <= n,
                skip_word(s@, a as int) == skip_word(s@, b as int),
            ensures
                a <= b <= n,
                skip_word(s@, a as int) == b,
            decreases n - b,
        {
            if b == n || white_space(s.get_char(b)) {
                break;
            }
            b = b + 1;
        }
        String::from_str(s.substring_char(a, b))
    };
    assert(word@ == first_word_or_all(s@));
    let literal: String = match find_hex_literal(word.as_str()) {
        Some(m) => m,
        None => word,
    };
    let stripped = strip_pairs(literal.as_str(), '0', 'x');
    let stripped = strip_pairs(stripped.as_str(), '0', 'X');
    parse_hex_digits(stripped.as_str())
}

/// `s` without its leading repetitions of the two characters `ab`.
fn strip_pairs(s: &str, a: char, b: char) -> (r: String)
    ensures
        r@ == s@.subrange(skip_pairs(s@, 0, a, b), s@.len() as int),
{
    let n = s.unicode_len();
    let mut i: usize = 0;
    loop
        invariant
            n == s@.len(),
            i <= n,
            skip_pairs(s@, 0, a, b) == skip_pairs(s@, i as int, a, b),
        ensures
            i <= n,
            skip_pairs(s@, 0, a, b) == i,
        decreases n - i,
    {
        if n - i < 2 || s.get_char(i) != a || s.get_char(i + 1) != b {
            break;
        }
        i = i + 2;
    }
    String::from_str(s.substring_char(i, n))
}

} // verus!
