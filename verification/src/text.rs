//! Names of nodes, and the paths of sysfs devices.

use vstd::prelude::*;
use vstd::string::{StrSliceExecFns, StringExecFns};

verus! {

/// The digit of value `value`, in lower case.
pub open spec fn digit(value: nat) -> char {
    "0123456789abcdef"@[value as int]
}

/// The numeral of `number` to the base `base`, without leading zeros.
pub open spec fn numeral(base: nat, number: nat) -> Seq<char>
    decreases number,
{
    if base < 2 || number < base {
        seq![digit(number)]
    } else {
        proof {
            vstd::arithmetic::div_mod::lemma_div_decreases(number as int, base as int);
        }
        numeral(base, number / base).push(digit(number % base))
    }
}

/// The number in lower case hexadecimal.
pub open spec fn hex(number: nat) -> Seq<char> {
    numeral(16, number)
}

/// The number in decimal.
pub open spec fn decimal(number: nat) -> Seq<char> {
    numeral(10, number)
}

/// The value of a digit.
pub open spec fn digit_value(c: char) -> int {
    if '0' <= c <= '9' {
        c as int - '0' as int
    } else {
        c as int - 'a' as int + 10
    }
}

/// The value of digits to the base `base`.
pub open spec fn digits_value(base: nat, digits: Seq<char>) -> int
    decreases digits.len(),
{
    if digits.len() == 0 {
        0
    } else {
        digits_value(base, digits.drop_last()) * base + digit_value(digits.last())
    }
}

/// A numeral reads back as its number. It has no leading zeros, and its digits
/// are below the base and in lower case.
pub proof fn lemma_numeral_value(base: nat, number: nat)
    requires
        2 <= base <= 16,
    ensures
        digits_value(base, numeral(base, number)) == number,
        numeral(base, number).len() > 0,
        number > 0 ==> numeral(base, number)[0] != '0',
        number == 0 ==> numeral(base, number) == seq!['0'],
        forall|i: int|
            0 <= i < numeral(base, number).len() ==> {
                let digit = #[trigger] numeral(base, number)[i];
                &&& '0' <= digit <= '9' || 'a' <= digit <= 'f'
                &&& 0 <= digit_value(digit) < base
            },
    decreases number,
{
    reveal_strlit("0123456789abcdef");
    assert(forall|value: nat|
        value < 16 ==> (#[trigger] digit(value)) as nat == if value < 10 {
            48 + value
        } else {
            87 + value
        });
    let digits = numeral(base, number);
    if number < base {
        assert(digits.drop_last() =~= Seq::empty());
        assert(digits_value(base, digits.drop_last()) == 0);
        assert(0 * base == 0) by (nonlinear_arith);
        assert(digits.last() == digit(number));
    } else {
        vstd::arithmetic::div_mod::lemma_div_decreases(number as int, base as int);
        vstd::arithmetic::div_mod::lemma_fundamental_div_mod(number as int, base as int);
        vstd::arithmetic::div_mod::lemma_mod_bound(number as int, base as int);
        vstd::arithmetic::mul::lemma_mul_is_commutative(base as int, number as int / base as int);
        vstd::arithmetic::div_mod::lemma_div_non_zero(number as int, base as int);
        lemma_numeral_value(base, number / base);
        assert(digits.drop_last() =~= numeral(base, number / base));
        assert(digits.last() == digit(number % base));
        assert(digits[0] == numeral(base, number / base)[0]);
    }
}

/// Digits of different values differ.
pub proof fn lemma_digit_injective(left: nat, right: nat)
    requires
        left < 16,
        right < 16,
        digit(left) == digit(right),
    ensures
        left == right,
{
    lemma_numeral_value(16, left);
    lemma_numeral_value(16, right);
}

/// Every number has a numeral.
pub proof fn lemma_numeral_not_empty(base: nat, number: nat)
    ensures
        numeral(base, number).len() > 0,
    decreases number,
{
}

/// Different numbers have different numerals.
pub proof fn lemma_numeral_injective(base: nat, left: nat, right: nat)
    requires
        2 <= base <= 16,
        numeral(base, left) == numeral(base, right),
    ensures
        left == right,
{
    lemma_numeral_value(base, left);
    lemma_numeral_value(base, right);
}

/// Nodes that are named after different numbers have different names.
pub proof fn lemma_names_injective(prefix: Seq<char>, left: nat, right: nat)
    ensures
        prefix + hex(left) == prefix + hex(right) ==> left == right,
        prefix + decimal(left) == prefix + decimal(right) ==> left == right,
{
    if prefix + hex(left) == prefix + hex(right) {
        assert(hex(left) =~= (prefix + hex(left)).skip(prefix.len() as int));
        assert(hex(right) =~= (prefix + hex(right)).skip(prefix.len() as int));
        lemma_numeral_injective(16, left, right);
    }
    if prefix + decimal(left) == prefix + decimal(right) {
        assert(decimal(left) =~= (prefix + decimal(left)).skip(prefix.len() as int));
        assert(decimal(right) =~= (prefix + decimal(right)).skip(prefix.len() as int));
        lemma_numeral_injective(10, left, right);
    }
}

/// Writes `number` to the base `base`.
fn to_numeral(base: u64, number: u64) -> (text: String)
    requires
        2 <= base <= 16,
    ensures
        text@ == numeral(base as nat, number as nat),
    decreases number,
{
    let digits = "0123456789abcdef";
    proof {
        reveal_strlit("0123456789abcdef");
    }
    if number < base {
        let text = digits.substring_char(number as usize, number as usize + 1).to_owned();
        assert(text@ =~= seq![digit(number as nat)]);
        text
    } else {
        let last: u64 = number % base;
        let mut text = to_numeral(base, number / base);
        text.append(digits.substring_char(last as usize, last as usize + 1));
        assert(text@ =~= numeral(base as nat, number as nat));
        text
    }
}

/// `prefix` followed by `number` in hexadecimal.
pub fn hex_name(prefix: &str, number: u64) -> (name: String)
    ensures
        name@ == prefix@ + hex(number as nat),
{
    let mut name = prefix.to_owned();
    name.append(to_numeral(16, number).as_str());
    name
}

/// `prefix` followed by `number` in decimal.
pub fn decimal_name(prefix: &str, number: usize) -> (name: String)
    ensures
        name@ == prefix@ + decimal(number as nat),
{
    let mut name = prefix.to_owned();
    name.append(to_numeral(10, number as u64).as_str());
    name
}

/// Whether two strings are equal.
pub fn same_text(left: &str, right: &str) -> (same: bool)
    ensures
        same == (left@ == right@),
{
    left.to_owned() == right.to_owned()
}

/// The path `path`, taken from the directory `base`: an absolute path stands
/// for itself.
pub open spec fn joined(base: Seq<char>, path: Seq<char>) -> Seq<char> {
    if path.len() > 0 && path[0] == '/' {
        path
    } else if base.len() == 0 || base.last() == '/' {
        base + path
    } else {
        base + "/"@ + path
    }
}

/// Takes `path` from the directory `base`.
pub fn join_path(base: &str, path: &str) -> (result: String)
    ensures
        result@ == joined(base@, path@),
{
    let base_len = base.unicode_len();
    if path.unicode_len() > 0 && path.get_char(0) == '/' {
        return path.to_owned();
    }
    let mut result = base.to_owned();
    if base_len > 0 && base.get_char(base_len - 1) != '/' {
        result.append("/");
    }
    result.append(path);
    result
}

/// What stands behind the last slash of `path`.
pub open spec fn last_component(path: Seq<char>) -> Seq<char>
    decreases path.len(),
{
    if path.len() == 0 || path.last() == '/' {
        Seq::empty()
    } else {
        last_component(path.drop_last()).push(path.last())
    }
}

/// The name of the file or directory that `path` leads to. Trailing slashes and
/// components `.` do not count; a path that ends in `..` has no name.
pub open spec fn file_name_of(path: Seq<char>) -> Option<Seq<char>>
    decreases path.len(),
{
    let component = last_component(path);
    if path.len() == 0 {
        None
    } else if component.len() == 0 || component == "."@ {
        file_name_of(path.drop_last())
    } else if component == ".."@ {
        None
    } else {
        Some(component)
    }
}

/// What stands behind the last slash, where that slash is known.
pub proof fn lemma_last_component(path: Seq<char>, start: int)
    requires
        0 <= start <= path.len(),
        start == 0 || path[start - 1] == '/',
        forall|i: int| start <= i < path.len() ==> path[i] != '/',
    ensures
        last_component(path) == path.subrange(start, path.len() as int),
    decreases path.len(),
{
    if path.len() == start {
        assert(path.subrange(start, start) =~= Seq::empty());
    } else {
        lemma_last_component(path.drop_last(), start);
        assert(path.drop_last().subrange(start, path.len() - 1).push(path.last()) =~= path.subrange(
            start,
            path.len() as int,
        ));
    }
}

/// A name is that of the path which it ends, and joining a path with a name leads
/// to that name.
pub proof fn lemma_file_name(directory: Seq<char>, name: Seq<char>)
    requires
        name.len() > 0,
        forall|i: int| 0 <= i < name.len() ==> name[i] != '/',
        name != "."@,
        name != ".."@,
    ensures
        file_name_of(name) == Some(name),
        file_name_of(directory + "/"@ + name) == Some(name),
        file_name_of(joined(directory, name)) == Some(name),
{
    reveal_strlit("/");
    let path = directory + "/"@ + name;
    let start = directory.len() + 1;
    assert(path.subrange(start as int, path.len() as int) =~= name);
    lemma_last_component(path, start as int);
    assert(name.subrange(0, name.len() as int) =~= name);
    lemma_last_component(name, 0);
    if directory.len() == 0 {
        assert(directory + name =~= name);
    } else if directory.last() == '/' {
        let whole = directory + name;
        assert(whole.subrange(directory.len() as int, whole.len() as int) =~= name);
        lemma_last_component(whole, directory.len() as int);
    }
}

/// Slashes at the end of a path, and components that stay where they are, do not
/// change its name. A path that ends in its parent has none, nor has the empty
/// path.
pub proof fn lemma_file_name_ends(path: Seq<char>)
    ensures
        file_name_of(path + "/"@) == file_name_of(path),
        file_name_of(path + "/."@) == file_name_of(path),
        file_name_of(path + "/.."@) is None,
        file_name_of(Seq::<char>::empty()) is None,
{
    reveal_strlit("/");
    reveal_strlit("/.");
    reveal_strlit("/..");
    reveal_strlit(".");
    reveal_strlit("..");
    let slash = path + "/"@;
    let dot = path + "/."@;
    let dots = path + "/.."@;
    let start = path.len() as int + 1;
    assert(slash.drop_last() =~= path);
    assert(dot.drop_last() =~= slash);
    lemma_last_component(dot, start);
    assert(dot.subrange(start, dot.len() as int) =~= "."@);
    lemma_last_component(dots, start);
    assert(dots.subrange(start, dots.len() as int) =~= ".."@);
    assert("."@.len() == 1 && ".."@.len() == 2);
}

/// An absolute path stands for itself. Any other starts at the directory that it
/// is taken from, behind one slash.
pub proof fn lemma_joined(base: Seq<char>, path: Seq<char>)
    ensures
        path.len() > 0 && path[0] == '/' ==> joined(base, path) == path,
        !(path.len() > 0 && path[0] == '/') ==> {
            let result = joined(base, path);
            &&& result.len() >= base.len() + path.len()
            &&& base == result.take(base.len() as int)
            &&& path == result.skip(result.len() - path.len())
            &&& base.len() == 0 ==> result == path
            &&& base.len() > 0 ==> result[result.len() - path.len() - 1] == '/'
            &&& result.len() == base.len() + path.len() + if base.len() > 0 && base.last() != '/' {
                1int
            } else {
                0
            }
        },
{
    reveal_strlit("/");
    let result = joined(base, path);
    if !(path.len() > 0 && path[0] == '/') {
        assert(base =~= result.take(base.len() as int));
        assert(path =~= result.skip(result.len() - path.len()));
    }
}

/// The name of the file or directory that `path` leads to.
pub fn file_name(path: &str) -> (name: Option<String>)
    ensures
        match name {
            Some(name) => file_name_of(path@) == Some(name@),
            None => file_name_of(path@) is None,
        },
{
    let mut end = path.unicode_len();
    assert(path@.take(end as int) =~= path@);
    while end > 0
        invariant
            end <= path@.len(),
            file_name_of(path@) == file_name_of(path@.take(end as int)),
        decreases end,
    {
        let ghost front = path@.take(end as int);
        let mut start = end;
        while start > 0 && path.get_char(start - 1) != '/'
            invariant
                start <= end <= path@.len(),
                forall|i: int| start <= i < end ==> path@[i] != '/',
            decreases start,
        {
            start -= 1;
        }
        proof {
            lemma_last_component(front, start as int);
            assert(front.subrange(start as int, end as int) =~= path@.subrange(
                start as int,
                end as int,
            ));
            assert(front.drop_last() =~= path@.take(end - 1));
        }
        let component = path.substring_char(start, end);
        if start == end || same_text(component, ".") {
            end -= 1;
        } else if same_text(component, "..") {
            return None;
        } else {
            return Some(component.to_owned());
        }
    }
    None
}

/// A character that Unicode lists as white space.
pub open spec fn is_white_space(c: char) -> bool {
    ||| '\u{9}' <= c <= '\u{d}'
    ||| c == ' '
    ||| c == '\u{85}'
    ||| c == '\u{a0}'
    ||| c == '\u{1680}'
    ||| '\u{2000}' <= c <= '\u{200a}'
    ||| c == '\u{2028}'
    ||| c == '\u{2029}'
    ||| c == '\u{202f}'
    ||| c == '\u{205f}'
    ||| c == '\u{3000}'
}

/// The text without the white space at its start.
pub open spec fn trimmed_start(text: Seq<char>) -> Seq<char>
    decreases text.len(),
{
    if text.len() > 0 && is_white_space(text[0]) {
        trimmed_start(text.skip(1))
    } else {
        text
    }
}

/// The text without the white space at its end.
pub open spec fn trimmed_end(text: Seq<char>) -> Seq<char>
    decreases text.len(),
{
    if text.len() > 0 && is_white_space(text.last()) {
        trimmed_end(text.drop_last())
    } else {
        text
    }
}

/// The text without the white space around it.
pub open spec fn trimmed(text: Seq<char>) -> Seq<char> {
    trimmed_end(trimmed_start(text))
}

proof fn lemma_trimmed_start(text: Seq<char>) -> (start: int)
    ensures
        0 <= start <= text.len(),
        trimmed_start(text) == text.skip(start),
        forall|i: int| 0 <= i < start ==> is_white_space(#[trigger] text[i]),
        start < text.len() ==> !is_white_space(text[start]),
    decreases text.len(),
{
    if text.len() > 0 && is_white_space(text[0]) {
        let rest = lemma_trimmed_start(text.skip(1));
        assert(text.skip(1).skip(rest) =~= text.skip(rest + 1));
        assert forall|i: int| 0 <= i < rest + 1 implies is_white_space(#[trigger] text[i]) by {
            if i > 0 {
                assert(text[i] == text.skip(1)[i - 1]);
            }
        }
        rest + 1
    } else {
        assert(text.skip(0) =~= text);
        0
    }
}

proof fn lemma_trimmed_end(text: Seq<char>) -> (end: int)
    ensures
        0 <= end <= text.len(),
        trimmed_end(text) == text.take(end),
        forall|i: int| end <= i < text.len() ==> is_white_space(#[trigger] text[i]),
        end > 0 ==> !is_white_space(text[end - 1]),
    decreases text.len(),
{
    if text.len() > 0 && is_white_space(text.last()) {
        let end = lemma_trimmed_end(text.drop_last());
        assert(text.drop_last().take(end) =~= text.take(end));
        assert forall|i: int| end <= i < text.len() implies is_white_space(#[trigger] text[i]) by {
            if i < text.len() - 1 {
                assert(text[i] == text.drop_last()[i]);
            }
        }
        end
    } else {
        assert(text.take(text.len() as int) =~= text);
        text.len() as int
    }
}

/// Of a text only white space is taken away, all of it at both ends, and nothing
/// in between.
pub proof fn lemma_trimmed(text: Seq<char>) -> (bounds: (int, int))
    ensures
        0 <= bounds.0 <= bounds.1 <= text.len(),
        trimmed(text) == text.subrange(bounds.0, bounds.1),
        forall|i: int|
            0 <= i < bounds.0 || bounds.1 <= i < text.len() ==> is_white_space(#[trigger] text[i]),
        trimmed(text).len() > 0 ==> !is_white_space(trimmed(text)[0]) && !is_white_space(
            trimmed(text).last(),
        ),
{
    let start = lemma_trimmed_start(text);
    let rest = text.skip(start);
    let end = lemma_trimmed_end(rest);
    assert(rest.take(end) =~= text.subrange(start, start + end));
    assert forall|i: int| 0 <= i < start || start + end <= i < text.len() implies is_white_space(
        #[trigger] text[i],
    ) by {
        if i >= start {
            assert(text[i] == rest[i - start]);
        }
    }
    (start, start + end)
}

fn white_space(c: char) -> (result: bool)
    ensures
        result == is_white_space(c),
{
    ('\u{9}' <= c && c <= '\u{d}') || c == ' ' || c == '\u{85}' || c == '\u{a0}' || c == '\u{1680}'
        || ('\u{2000}' <= c && c <= '\u{200a}') || c == '\u{2028}' || c == '\u{2029}' || c
        == '\u{202f}' || c == '\u{205f}' || c == '\u{3000}'
}

/// Takes the white space around `text` away.
pub fn trim(text: &str) -> (result: &str)
    ensures
        result@ == trimmed(text@),
{
    let len = text.unicode_len();
    let mut start: usize = 0;
    assert(text@.skip(0) =~= text@);
    while start < len && white_space(text.get_char(start))
        invariant
            len == text@.len(),
            start <= len,
            trimmed_start(text@) == trimmed_start(text@.skip(start as int)),
        decreases len - start,
    {
        assert(text@.skip(start as int).skip(1) =~= text@.skip(start + 1));
        start += 1;
    }
    let ghost front = trimmed_start(text@);
    let mut end = len;
    assert(text@.subrange(start as int, len as int) =~= text@.skip(start as int));
    while end > start && white_space(text.get_char(end - 1))
        invariant
            len == text@.len(),
            start <= end <= len,
            trimmed_end(front) == trimmed_end(text@.subrange(start as int, end as int)),
        decreases end,
    {
        assert(text@.subrange(start as int, end as int).drop_last() =~= text@.subrange(
            start as int,
            end - 1,
        ));
        end -= 1;
    }
    text.substring_char(start, end)
}

} // verus!
