//! Text that names a device on the host, and what the host says about it.
use vstd::prelude::*;

verus! {

/// Appends a string slice to a string.
///
/// `String::push_str` leaves what the string holds as it is, and adds the characters of the
/// slice, in order, behind it.
pub assume_specification[ String::push_str ](s: &mut String, string: &str)
    ensures
        final(s)@ == old(s)@ + string@,
;

/// The characters with the Unicode property `White_Space`.
pub open spec fn is_white_space(c: char) -> bool {
    let n = c as int;
    ||| 0x09 <= n <= 0x0D
    ||| n == 0x20
    ||| n == 0x85
    ||| n == 0xA0
    ||| n == 0x1680
    ||| 0x2000 <= n <= 0x200A
    ||| n == 0x2028
    ||| n == 0x2029
    ||| n == 0x202F
    ||| n == 0x205F
    ||| n == 0x3000
}

/// `s` without the white space that it begins and ends with.
pub open spec fn trimmed(s: Seq<char>) -> Seq<char>
    decreases s.len(),
{
    if s.len() == 0 {
        s
    } else if is_white_space(s.first()) {
        trimmed(s.drop_first())
    } else if is_white_space(s.last()) {
        trimmed(s.drop_last())
    } else {
        s
    }
}

/// The number that the digits `s` are in base ten, if there are digits only.
pub open spec fn decimal(s: Seq<char>) -> Option<nat>
    decreases s.len(),
{
    if s.len() == 0 {
        Some(0)
    } else {
        match decimal(s.drop_last()) {
            Some(n) if '0' <= s.last() <= '9' => Some((10 * n + (s.last() as int - '0' as int)) as nat),
            _ => None,
        }
    }
}

/// The 32-bit number that `s` stands for: an optional `+`, then one or more digits.
pub open spec fn parsed_u32(s: Seq<char>) -> Option<u32> {
    let digits = if s.len() > 0 && s[0] == '+' {
        s.drop_first()
    } else {
        s
    };
    match decimal(digits) {
        Some(n) if digits.len() > 0 && n <= u32::MAX => Some(n as u32),
        _ => None,
    }
}

/// `str::trim`: takes the characters with the property `White_Space` off both ends.
#[verifier::external_body]
fn trim(s: &str) -> (r: &str)
    ensures
        r@ == trimmed(s@),
{
    s.trim()
}

/// `str::parse::<u32>`: the number in base ten, if the text is an optional `+` followed by one or
/// more digits and nothing else, and the number fits in 32 bits.
#[verifier::external_body]
fn parse_u32(s: &str) -> (r: Option<u32>)
    ensures
        r == parsed_u32(s@),
{
    s.parse::<u32>().ok()
}

/// The interrupt number that the host reports as `text`: zero if the text could not be read, or is
/// not a number.
pub fn parse_gsi(text: Option<&str>) -> (gsi: u32)
    ensures
        gsi == (match text {
            Some(s) => match parsed_u32(trimmed(s@)) {
                Some(n) => n,
                None => 0,
            },
            None => 0,
        }),
{
    match text {
        Some(s) => match parse_u32(trim(s)) {
            Some(n) => n,
            None => 0,
        },
        None => 0,
    }
}

/// The path that `component` names, seen from `base`: `component` itself if it is absolute, and
/// otherwise what it names below `base`.
pub open spec fn joined(base: Seq<char>, component: Seq<char>) -> Seq<char> {
    if component.len() > 0 && component[0] == '/' {
        component
    } else if base.len() > 0 && base.last() != '/' {
        base.push('/') + component
    } else {
        base + component
    }
}

/// Extends `base` by `component`.
pub fn push_path(base: &str, component: &str) -> (path: String)
    ensures
        path@ =~= joined(base@, component@),
{
    let n: usize = component.unicode_len();
    if n > 0 && component.get_char(0) == '/' {
        return component.to_owned();
    }
    let mut path = base.to_owned();
    let m: usize = base.unicode_len();
    if m > 0 && base.get_char(m - 1) != '/' {
        path.push_str("/");
        proof {
            reveal_strlit("/");
            assert("/"@ =~= seq!['/']);
        }
    }
    path.push_str(component);
    path
}

/// Where the host keeps what it knows about its PCI device `name`.
pub open spec fn sysfs_dir(name: Seq<char>) -> Seq<char> {
    joined("/sys/bus/pci/devices/"@, name)
}

/// The file that holds the interrupt number of PCI device `name`.
pub open spec fn sysfs_irq(name: Seq<char>) -> Seq<char> {
    joined(joined("/sys/bus/pci/devices"@, name), "irq"@)
}

/// The file that holds the interrupt number of PCI device `name`.
pub fn irq_file(name: &str) -> (path: String)
    ensures
        path@ == sysfs_irq(name@),
{
    let dir = push_path("/sys/bus/pci/devices", name);
    push_path(dir.as_str(), "irq")
}

/// White space around what the host reports makes no difference.
pub proof fn law_surrounding_white_space_is_ignored(s: Seq<char>, c: char)
    requires
        is_white_space(c),
    ensures
        trimmed(seq![c] + s) == trimmed(s),
        trimmed(s.push(c)) == trimmed(s),
    decreases s.len(),
{
    assert((seq![c] + s).drop_first() =~= s);
    assert(s.push(c).drop_last() =~= s);
    if s.len() == 0 {
        assert(s.push(c).drop_first() =~= s);
    } else if is_white_space(s.first()) {
        assert(s.push(c).drop_first() =~= s.drop_first().push(c));
        law_surrounding_white_space_is_ignored(s.drop_first(), c);
    }
}

/// What is left without surrounding white space neither begins nor ends with white space, and where
/// there is none around a text, the text is left as it is.
pub proof fn law_trimmed_text_has_no_white_space_around(s: Seq<char>)
    ensures
        trimmed(s).len() > 0 ==> !is_white_space(trimmed(s).first()) && !is_white_space(
            trimmed(s).last(),
        ),
        s.len() > 0 && !is_white_space(s.first()) && !is_white_space(s.last()) ==> trimmed(s) == s,
    decreases s.len(),
{
    if s.len() > 0 {
        if is_white_space(s.first()) {
            law_trimmed_text_has_no_white_space_around(s.drop_first());
        } else if is_white_space(s.last()) {
            law_trimmed_text_has_no_white_space_around(s.drop_last());
        }
    }
}

/// Numbers are written in base ten: a digit behind a number adds to ten times the number, if the sum
/// fits in 32 bits. A plus sign before a number makes no difference. Nothing, and anything with another
/// character behind it, is not a number.
pub proof fn law_numbers_are_decimal(s: Seq<char>, c: char)
    ensures
        parsed_u32(seq![]) is None,
        '0' <= c <= '9' ==> parsed_u32(seq![c]) == Some((c as int - '0' as int) as u32),
        !('0' <= c <= '9') ==> parsed_u32(s.push(c)) is None,
        parsed_u32(s) matches Some(n) ==> '0' <= c <= '9' ==> {
            let sum = 10 * n + (c as int - '0' as int);
            parsed_u32(s.push(c)) == (if sum <= u32::MAX {
                Some(sum as u32)
            } else {
                None
            })
        },
        s.len() > 0 && s[0] != '+' ==> parsed_u32(seq!['+'] + s) == parsed_u32(s),
{
    reveal_with_fuel(decimal, 2);
    assert(seq![c].drop_last() =~= seq![]);
    assert(s.push(c).drop_last() =~= s);
    assert((seq!['+'] + s).drop_first() =~= s);
    if s.len() > 0 && s[0] == '+' {
        assert(s.push(c).drop_first() =~= s.drop_first().push(c));
        assert(s.drop_first().push(c).drop_last() =~= s.drop_first());
    }
    if s.len() == 0 {
        assert(s.push(c) =~= seq![c]);
        assert(seq![c].drop_first() =~= seq![]);
    }
}

/// What the host knows about a device is in the directory with the name of the device, below that of
/// all PCI devices, and its interrupt number in the file `irq` there.
pub proof fn law_device_has_its_directory(name: Seq<char>)
    requires
        name.len() > 0,
        name[0] != '/',
        name.last() != '/',
    ensures
        sysfs_dir(name) == "/sys/bus/pci/devices/"@ + name,
        sysfs_irq(name) == "/sys/bus/pci/devices/"@ + name + "/irq"@,
{
    reveal_strlit("/sys/bus/pci/devices/");
    reveal_strlit("/sys/bus/pci/devices");
    reveal_strlit("irq");
    reveal_strlit("/irq");
    let dir = "/sys/bus/pci/devices/"@;
    assert("/sys/bus/pci/devices"@.push('/') =~= dir);
    assert(joined("/sys/bus/pci/devices"@, name) =~= dir + name);
    assert((dir + name).last() == name.last());
    assert((dir + name).push('/') + "irq"@ =~= dir + name + "/irq"@);
}

} // verus!
