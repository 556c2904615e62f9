//! String work: comparing, joining, spelling out numbers and lists.

use vstd::prelude::*;
use crate::deep::{deep, group_deep};

verus! {

broadcast use group_deep;

/// Whether `a` comes before `b` in the dictionary order of their characters.
pub open spec fn comes_before(a: Seq<char>, b: Seq<char>) -> bool
    decreases a.len(),
{
    if b.len() == 0 {
        false
    } else if a.len() == 0 {
        true
    } else if a[0] != b[0] {
        (a[0] as int) < (b[0] as int)
    } else {
        comes_before(a.skip(1), b.skip(1))
    }
}

/// Of two different strings one comes before the other, and not the other way
/// round; no string comes before itself.
pub proof fn lemma_order_is_total(a: Seq<char>, b: Seq<char>)
    ensures
        comes_before(a, b) ==> !comes_before(b, a),
        comes_before(a, b) ==> a != b,
        a != b ==> comes_before(a, b) || comes_before(b, a),
    decreases a.len(),
{
    if a.len() > 0 && b.len() > 0 {
        lemma_order_is_total(a.skip(1), b.skip(1));
        if a[0] == b[0] && a.skip(1) == b.skip(1) {
            assert(a =~= seq![a[0]] + a.skip(1));
            assert(b =~= seq![b[0]] + b.skip(1));
        }
    } else if a.len() == 0 && b.len() == 0 {
        assert(a =~= b);
    }
}

/// What comes before a string that comes before a third comes before the third.
pub proof fn lemma_order_is_transitive(a: Seq<char>, b: Seq<char>, c: Seq<char>)
    requires
        comes_before(a, b),
        comes_before(b, c),
    ensures
        comes_before(a, c),
    decreases a.len(),
{
    if a.len() > 0 && a[0] == b[0] && b[0] == c[0] {
        lemma_order_is_transitive(a.skip(1), b.skip(1), c.skip(1));
    }
}

/// The characters of a text.
fn characters(text: &str) -> (listed: Vec<char>)
    ensures
        listed@ == text@,
{
    let mut listed: Vec<char> = Vec::new();
    for c in read: text.chars()
        invariant
            read.seq() == text@,
            listed@ == text@.take(read.index()),
    {
        assert(text@.take(read.index() + 1) =~= text@.take(read.index()).push(c));
        listed.push(c);
    }
    assert(text@.take(text@.len() as int) =~= text@);
    listed
}

/// Whether `a` comes before `b` in the dictionary order of their characters.
pub(crate) fn is_before(a: &str, b: &str) -> (before: bool)
    ensures
        before == comes_before(a@, b@),
{
    let one = characters(a);
    let other = characters(b);
    let mut i: usize = 0;
    assert(a@.skip(0) =~= a@);
    assert(b@.skip(0) =~= b@);
    while i < one.len() && i < other.len()
        invariant
            one@ == a@,
            other@ == b@,
            i <= one@.len(),
            i <= other@.len(),
            comes_before(a@, b@) == comes_before(a@.skip(i as int), b@.skip(i as int)),
        decreases one@.len() - i,
    {
        assert(a@.skip(i as int)[0] == one@[i as int]);
        assert(b@.skip(i as int)[0] == other@[i as int]);
        assert(a@.skip(i as int).skip(1) =~= a@.skip(i + 1));
        assert(b@.skip(i as int).skip(1) =~= b@.skip(i + 1));
        if one[i] != other[i] {
            return one[i] < other[i];
        }
        i = i + 1;
    }
    i < other.len()
}

/// `text` in lower case, as `str::to_lowercase` of std makes it.
pub uninterp spec fn lowercase(text: Seq<char>) -> Seq<char>;

/// Calls `str::to_lowercase` of std. Claimed: the outcome depends on the text
/// alone.
#[verifier::external_body]
pub(crate) fn to_lowercase(text: &str) -> (lowered: String)
    ensures
        lowered@ == lowercase(text@),
{
    text.to_lowercase()
}

/// Whether `needle` stands somewhere in `text`.
pub open spec fn occurs_in(needle: Seq<char>, text: Seq<char>) -> bool {
    exists|i: int|
        0 <= i <= text.len() - needle.len() && #[trigger] text.subrange(i, i + needle.len())
            == needle
}

/// Whether `needle` stands somewhere in `text`.
pub(crate) fn contains(text: &str, needle: &str) -> (found: bool)
    ensures
        found == occurs_in(needle@, text@),
{
    let whole = characters(text);
    let part = characters(needle);
    let n: usize = whole.len();
    if part.len() > n {
        return false;
    }
    let last: usize = n - part.len();
    let mut start: usize = 0;
    while start <= last
        invariant
            whole@ == text@,
            part@ == needle@,
            n == whole@.len(),
            last == n - part@.len(),
            start <= last + 1,
            forall|i: int| 0 <= i < start ==> #[trigger] text@.subrange(i, i + needle@.len()) != needle@,
        decreases last + 1 - start,
    {
        let ghost here = text@.subrange(start as int, start + needle@.len());
        let mut k: usize = 0;
        while k < part.len() && whole[start + k] == part[k]
            invariant
                whole@ == text@,
                part@ == needle@,
                k <= part@.len(),
                n == whole@.len(),
                start + part@.len() <= n,
                forall|j: int| 0 <= j < k ==> whole@[start + j] == #[trigger] part@[j],
            decreases part@.len() - k,
        {
            k = k + 1;
        }
        if k == part.len() {
            assert(here =~= needle@);
            return true;
        }
        assert(here[k as int] != needle@[k as int]);
        if start == last {
            return false;
        }
        start = start + 1;
    }
    false
}

/// `text` in quotes and escaped, as std's `Debug` for `str` prints it.
pub uninterp spec fn debug_quoted(text: Seq<char>) -> Seq<char>;

/// Prints a string by std's `Debug`. Claimed: the outcome depends on the text
/// alone.
#[verifier::external_body]
pub(crate) fn quoted(text: &str) -> (shown: String)
    ensures
        shown@ == debug_quoted(text@),
{
    format!("{:?}", text)
}

/// The items in order, with `separator` between each two.
pub open spec fn joined(items: Seq<Seq<char>>, separator: Seq<char>) -> Seq<char>
    decreases items.len(),
{
    if items.len() == 0 {
        Seq::empty()
    } else if items.len() == 1 {
        items[0]
    } else {
        joined(items.drop_last(), separator) + separator + items.last()
    }
}

/// Joins the items, with `separator` between each two.
pub fn join(items: &Vec<String>, separator: &str) -> (text: String)
    ensures
        text@ == joined(deep(items@), separator@),
{
    let ghost all = deep(items@);
    let mut text: String = String::new();
    let mut i: usize = 0;
    while i < items.len()
        invariant
            i <= items@.len(),
            all == deep(items@),
            text@ == joined(all.take(i as int), separator@),
        decreases items@.len() - i,
    {
        assert(all.take(i + 1).drop_last() =~= all.take(i as int));
        if i > 0 {
            text.append(separator);
        }
        text.append(items[i].as_str());
        assert(text@ =~= joined(all.take(i + 1), separator@));
        i = i + 1;
    }
    assert(all.take(i as int) =~= all);
    text
}

/// All items in order, one right behind the other.
pub open spec fn concatenated(items: Seq<Seq<char>>) -> Seq<char>
    decreases items.len(),
{
    if items.len() == 0 {
        Seq::empty()
    } else {
        concatenated(items.drop_last()) + items.last()
    }
}

/// Puts the items one right behind the other.
pub fn concatenate(items: &Vec<String>) -> (text: String)
    ensures
        text@ == concatenated(deep(items@)),
{
    let ghost all = deep(items@);
    let mut text: String = String::new();
    let mut i: usize = 0;
    while i < items.len()
        invariant
            i <= items@.len(),
            all == deep(items@),
            text@ == concatenated(all.take(i as int)),
        decreases items@.len() - i,
    {
        assert(all.take(i + 1).drop_last() =~= all.take(i as int));
        text.append(items[i].as_str());
        i = i + 1;
    }
    assert(all.take(i as int) =~= all);
    text
}

/// The items as a list: each quoted, commas between, square brackets around.
pub open spec fn debug_list(items: Seq<Seq<char>>) -> Seq<char> {
    "["@ + joined(items.map_values(|item: Seq<char>| debug_quoted(item)), ", "@) + "]"@
}

/// Prints the items as a list: each quoted, commas between, brackets around.
pub fn show_list(items: &Vec<String>) -> (text: String)
    ensures
        text@ == debug_list(deep(items@)),
{
    let mut shown: Vec<String> = Vec::new();
    let mut i: usize = 0;
    while i < items.len()
        invariant
            i <= items@.len(),
            shown@.len() == i,
            forall|k: int| 0 <= k < i ==> (#[trigger] shown@[k])@ == debug_quoted(items@[k]@),
        decreases items@.len() - i,
    {
        shown.push(quoted(items[i].as_str()));
        i = i + 1;
    }
    assert(deep(shown@) =~= deep(items@).map_values(|item: Seq<char>| debug_quoted(item)));
    let mut text = "[".to_owned();
    text.append(join(&shown, ", ").as_str());
    text.append("]");
    text
}

/// A digit as a character.
pub open spec fn digit(n: nat) -> char {
    (48 + n) as char
}

/// `n` in decimal, without leading zeros.
pub open spec fn decimal(n: nat) -> Seq<char>
    decreases n,
{
    if n < 10 {
        seq![digit(n)]
    } else {
        decimal(n / 10).push(digit(n % 10))
    }
}

fn digit_text(n: usize) -> (text: &'static str)
    requires
        n < 10,
    ensures
        text@ == seq![digit(n as nat)],
{
    proof {
        reveal_strlit("0");
        reveal_strlit("1");
        reveal_strlit("2");
        reveal_strlit("3");
        reveal_strlit("4");
        reveal_strlit("5");
        reveal_strlit("6");
        reveal_strlit("7");
        reveal_strlit("8");
        reveal_strlit("9");
    }
    let text = match n {
        0 => "0",
        1 => "1",
        2 => "2",
        3 => "3",
        4 => "4",
        5 => "5",
        6 => "6",
        7 => "7",
        8 => "8",
        _ => "9",
    };
    assert(text@ =~= seq![digit(n as nat)]);
    text
}

/// Spells `n` out in decimal.
pub fn spell(n: usize) -> (text: String)
    ensures
        text@ == decimal(n as nat),
    decreases n,
{
    if n < 10 {
        digit_text(n).to_owned()
    } else {
        let mut text = spell(n / 10);
        text.append(digit_text(n % 10));
        assert(text@ =~= decimal(n as nat));
        text
    }
}

} // verus!
