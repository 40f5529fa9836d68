//! Text as sequences of characters: comparison, order, joining, numerals and character classes.

use vstd::prelude::*;
use vstd::string::*;
use vstd::utf8::*;

verus! {

/// Appends one character to a string.
///
/// `String::push`: "Appends the given `char` to the end of this `String`."
pub assume_specification[ String::push ](target: &mut String, ch: char)
    ensures
        final(target)@ == old(target)@.push(ch),
;

/// The views of the elements of a sequence, in order.
pub open spec fn views<T: View>(items: Seq<T>) -> Seq<T::V> {
    Seq::new(items.len(), |i: int| items[i]@)
}

/// The view of an optional value.
pub open spec fn opt_view<T: View>(item: Option<T>) -> Option<T::V> {
    match item {
        Some(value) => Some(value@),
        None => None,
    }
}

/// Two strings hold the same characters.
pub fn same_text(a: &str, b: &str) -> (same: bool)
    ensures
        same == (a@ == b@),
{
    let left: &[u8] = a.as_bytes();
    let right: &[u8] = b.as_bytes();
    proof {
        encode_utf8_decode_utf8(a@);
        encode_utf8_decode_utf8(b@);
    }
    if left.len() != right.len() {
        return false;
    }
    let mut i: usize = 0;
    while i < left.len()
        invariant
            i <= left.len(),
            left.len() == right.len(),
            left@ == encode_utf8(a@),
            right@ == encode_utf8(b@),
            forall|j: int| 0 <= j < i ==> left@[j] == right@[j],
        decreases left.len() - i,
    {
        if left[i] != right[i] {
            return false;
        }
        i = i + 1;
    }
    assert(left@ =~= right@);
    true
}

/// Two optional strings are equal.
pub fn same_opt(a: &Option<String>, b: &Option<String>) -> (same: bool)
    ensures
        same == (opt_view(*a) == opt_view(*b)),
{
    match (a, b) {
        (Some(x), Some(y)) => same_text(x.as_str(), y.as_str()),
        (None, None) => true,
        _ => false,
    }
}

/// A copy of an optional string.
pub fn clone_opt(item: &Option<String>) -> (copy: Option<String>)
    ensures
        opt_view(copy) == opt_view(*item),
        copy == *item,
{
    match item {
        Some(value) => Some(value.clone()),
        None => None,
    }
}

/// A copy of a list of strings.
pub fn clone_texts(items: &Vec<String>) -> (copy: Vec<String>)
    ensures
        copy@ == items@,
{
    let mut copy: Vec<String> = Vec::new();
    let mut i: usize = 0;
    while i < items.len()
        invariant
            i <= items.len(),
            copy@ == items@.take(i as int),
        decreases items.len() - i,
    {
        copy.push(items[i].clone());
        i = i + 1;
        assert(items@.take(i as int) =~= items@.take(i - 1).push(items@[i - 1]));
    }
    assert(items@.take(items.len() as int) =~= items@);
    copy
}

/// Whether a list of strings holds one with the given characters.
pub fn holds_text(items: &Vec<String>, name: &str) -> (found: bool)
    ensures
        found == views(items@).contains(name@),
{
    let mut i: usize = 0;
    while i < items.len()
        invariant
            i <= items.len(),
            forall|j: int| 0 <= j < i ==> items@[j]@ != name@,
        decreases items.len() - i,
    {
        if same_text(items[i].as_str(), name) {
            assert(views(items@)[i as int] == name@);
            return true;
        }
        i = i + 1;
    }
    assert forall|j: int| 0 <= j < views(items@).len() implies views(items@)[j] != name@ by {
        assert(items@[j]@ != name@);
    }
    false
}

/// The order of two byte strings: the first differing byte decides, and a prefix comes first.
pub open spec fn bytes_before(a: Seq<u8>, b: Seq<u8>) -> bool
    decreases a.len(),
{
    if b.len() == 0 {
        false
    } else if a.len() == 0 {
        true
    } else if a[0] != b[0] {
        a[0] < b[0]
    } else {
        bytes_before(a.drop_first(), b.drop_first())
    }
}

/// The order of two texts, by the bytes that encode them.
pub open spec fn text_before(a: Seq<char>, b: Seq<char>) -> bool {
    bytes_before(encode_utf8(a), encode_utf8(b))
}

/// Whether `a` comes strictly before `b`.
pub fn is_before(a: &str, b: &str) -> (before: bool)
    ensures
        before == text_before(a@, b@),
{
    let left: &[u8] = a.as_bytes();
    let right: &[u8] = b.as_bytes();
    let mut i: usize = 0;
    proof {
        assert(left@.skip(0) =~= left@);
        assert(right@.skip(0) =~= right@);
    }
    while i < left.len() && i < right.len()
        invariant
            i <= left.len(),
            i <= right.len(),
            left@ == encode_utf8(a@),
            right@ == encode_utf8(b@),
            text_before(a@, b@) == bytes_before(left@.skip(i as int), right@.skip(i as int)),
        decreases left.len() - i,
    {
        proof {
            assert(left@.skip(i as int).drop_first() =~= left@.skip(i + 1));
            assert(right@.skip(i as int).drop_first() =~= right@.skip(i + 1));
            assert(left@.skip(i as int)[0] == left@[i as int]);
            assert(right@.skip(i as int)[0] == right@[i as int]);
        }
        if left[i] != right[i] {
            return left[i] < right[i];
        }
        i = i + 1;
    }
    i < right.len()
}

/// No text comes before itself.
pub proof fn lemma_before_irreflexive(a: Seq<u8>)
    ensures
        !bytes_before(a, a),
    decreases a.len(),
{
    if a.len() > 0 {
        lemma_before_irreflexive(a.drop_first());
    }
}

/// The order of byte strings is transitive.
pub proof fn lemma_before_transitive(a: Seq<u8>, b: Seq<u8>, c: Seq<u8>)
    requires
        bytes_before(a, b),
        bytes_before(b, c),
    ensures
        bytes_before(a, c),
    decreases a.len(),
{
    if a.len() > 0 && a[0] == b[0] && b[0] == c[0] {
        lemma_before_transitive(a.drop_first(), b.drop_first(), c.drop_first());
    }
}

/// Of two different byte strings one comes first.
pub proof fn lemma_before_total(a: Seq<u8>, b: Seq<u8>)
    requires
        a != b,
    ensures
        bytes_before(a, b) || bytes_before(b, a),
    decreases a.len(),
{
    if a.len() == 0 || b.len() == 0 {
        assert(!(a =~= b));
    } else if a[0] == b[0] {
        if a.drop_first() == b.drop_first() {
            assert(a =~= seq![a[0]] + a.drop_first());
            assert(b =~= seq![b[0]] + b.drop_first());
        }
        lemma_before_total(a.drop_first(), b.drop_first());
    }
}

/// Texts with equal encodings are equal.
pub proof fn lemma_encoding_injective(a: Seq<char>, b: Seq<char>)
    requires
        encode_utf8(a) == encode_utf8(b),
    ensures
        a == b,
{
    encode_utf8_decode_utf8(a);
    encode_utf8_decode_utf8(b);
}

/// The parts of a list, separated by `separator`.
pub open spec fn joined(parts: Seq<Seq<char>>, separator: Seq<char>) -> Seq<char>
    decreases parts.len(),
{
    if parts.len() == 0 {
        Seq::empty()
    } else if parts.len() == 1 {
        parts[0]
    } else {
        joined(parts.drop_last(), separator) + separator + parts.last()
    }
}

/// Joins strings with a separator between neighbours.
pub fn join(parts: &Vec<String>, separator: &str) -> (text: String)
    ensures
        text@ == joined(views(parts@), separator@),
{
    let mut text: String = String::new();
    let mut i: usize = 0;
    let ghost all = views(parts@);
    while i < parts.len()
        invariant
            i <= parts.len(),
            all == views(parts@),
            text@ == joined(all.take(i as int), separator@),
        decreases parts.len() - i,
    {
        proof {
            assert(all.take(i + 1).drop_last() =~= all.take(i as int));
            assert(all.take(i + 1).last() == parts@[i as int]@);
        }
        if i > 0 {
            text.append(separator);
            text.append(parts[i].as_str());
        } else {
            text.append(parts[i].as_str());
            assert(text@ =~= parts@[0]@);
        }
        i = i + 1;
    }
    assert(all.take(parts.len() as int) =~= all);
    text
}

/// The character of a decimal digit.
pub open spec fn digit_char(digit: nat) -> char {
    (48 + digit) as char
}

/// The decimal numeral of a natural number.
pub open spec fn digits(n: nat) -> Seq<char>
    decreases n,
{
    if n < 10 {
        seq![digit_char(n)]
    } else {
        digits(n / 10).push(digit_char(n % 10))
    }
}

/// The decimal numeral of an integer, with a sign for a negative one.
pub open spec fn decimal(n: int) -> Seq<char> {
    if n < 0 {
        seq!['-'] + digits((-n) as nat)
    } else {
        digits(n as nat)
    }
}

fn push_digits(text: &mut String, n: u64)
    ensures
        final(text)@ == old(text)@ + digits(n as nat),
    decreases n,
{
    let last: u8 = 48u8 + (n % 10) as u8;
    if n >= 10 {
        push_digits(text, n / 10);
    }
    text.push(last as char);
    assert(text@ =~= old(text)@ + digits(n as nat));
}

/// The numeral of a machine integer.
pub fn numeral(n: i64) -> (text: String)
    ensures
        text@ == decimal(n as int),
{
    let mut text: String = String::new();
    if n < 0 {
        let magnitude: u64 = (-(n + 1)) as u64 + 1;
        text.push('-');
        push_digits(&mut text, magnitude);
        assert(text@ =~= decimal(n as int));
    } else {
        push_digits(&mut text, n as u64);
        assert(text@ =~= decimal(n as int));
    }
    text
}

/// The numeral of a natural number.
pub fn long_numeral(n: u64) -> (text: String)
    ensures
        text@ == decimal(n as int),
{
    let mut text: String = String::new();
    push_digits(&mut text, n);
    assert(text@ =~= decimal(n as int));
    text
}

/// The numeral of a count.
pub fn count_numeral(n: usize) -> (text: String)
    ensures
        text@ == decimal(n as int),
{
    long_numeral(n as u64)
}

/// Whether a character is a control code.
pub open spec fn control(ch: char) -> bool {
    ch as u32 <= 0x1f || 0x7f <= ch as u32 <= 0x9f
}

/// Whether a character is white space in the Unicode sense.
pub open spec fn white_space(ch: char) -> bool {
    let code = ch as u32;
    ||| 0x9 <= code <= 0xd
    ||| code == 0x20
    ||| code == 0x85
    ||| code == 0xa0
    ||| code == 0x1680
    ||| 0x2000 <= code <= 0x200a
    ||| code == 0x2028
    ||| code == 0x2029
    ||| code == 0x202f
    ||| code == 0x205f
    ||| code == 0x3000
}

/// Whether a character is ASCII punctuation.
pub open spec fn punctuation(ch: char) -> bool {
    let code = ch as u32;
    ||| 0x21 <= code <= 0x2f
    ||| 0x3a <= code <= 0x40
    ||| 0x5b <= code <= 0x60
    ||| 0x7b <= code <= 0x7e
}

/// Tests for a control code.
pub fn is_control(ch: char) -> (answer: bool)
    ensures
        answer == control(ch),
{
    let code: u32 = ch as u32;
    code <= 0x1f || (0x7f <= code && code <= 0x9f)
}

/// Tests for white space.
pub fn is_white_space(ch: char) -> (answer: bool)
    ensures
        answer == white_space(ch),
{
    let code: u32 = ch as u32;
    (0x9 <= code && code <= 0xd) || code == 0x20 || code == 0x85 || code == 0xa0 || code == 0x1680
        || (0x2000 <= code && code <= 0x200a) || code == 0x2028 || code == 0x2029 || code
        == 0x202f || code == 0x205f || code == 0x3000
}

/// Tests for ASCII punctuation.
pub fn is_punctuation(ch: char) -> (answer: bool)
    ensures
        answer == punctuation(ch),
{
    let code: u32 = ch as u32;
    (0x21 <= code && code <= 0x2f) || (0x3a <= code && code <= 0x40) || (0x5b <= code && code
        <= 0x60) || (0x7b <= code && code <= 0x7e)
}

/// Whether a text is empty but for white space.
pub open spec fn blank(text: Seq<char>) -> bool {
    forall|i: int| 0 <= i < text.len() ==> white_space(#[trigger] text[i])
}

/// The characters of a string, one by one.
pub fn characters(text: &str) -> (list: Vec<char>)
    ensures
        list@ == text@,
{
    let mut list: Vec<char> = Vec::new();
    for ch in iter: text.chars()
        invariant
            list@ == iter.seq().take(iter.index()),
            iter.seq() == text@,
    {
        let ghost before = list@;
        list.push(ch);
        assert(list@ =~= iter.seq().take(iter.index() + 1));
    }
    assert(text@.take(text@.len() as int) =~= text@);
    list
}

/// Tests for a text without any visible character.
pub fn is_blank(text: &str) -> (answer: bool)
    ensures
        answer == blank(text@),
{
    let list: Vec<char> = characters(text);
    let mut i: usize = 0;
    while i < list.len()
        invariant
            i <= list.len(),
            list@ == text@,
            forall|j: int| 0 <= j < i ==> white_space(#[trigger] text@[j]),
        decreases list.len() - i,
    {
        if !is_white_space(list[i]) {
            assert(!white_space(text@[i as int]));
            return false;
        }
        i = i + 1;
    }
    true
}

/// The words of a text: its maximal runs of characters that are not white space, in order.
/// `open` is the word that the text before this suffix left unfinished.
pub open spec fn words_after(open: Seq<char>, text: Seq<char>) -> Seq<Seq<char>>
    decreases text.len(),
{
    if text.len() == 0 {
        if open.len() == 0 {
            Seq::empty()
        } else {
            seq![open]
        }
    } else if white_space(text[0]) {
        if open.len() == 0 {
            words_after(Seq::empty(), text.drop_first())
        } else {
            seq![open] + words_after(Seq::empty(), text.drop_first())
        }
    } else {
        words_after(open.push(text[0]), text.drop_first())
    }
}

/// The words of a text.
pub open spec fn words(text: Seq<char>) -> Seq<Seq<char>> {
    words_after(Seq::empty(), text)
}

/// Splits a text at white space.
pub fn split_words(text: &str) -> (list: Vec<String>)
    ensures
        views(list@) == words(text@),
{
    let chars: Vec<char> = characters(text);
    let mut list: Vec<String> = Vec::new();
    let mut word: String = String::new();
    let mut empty: bool = true;
    let mut i: usize = 0;
    proof {
        assert(chars@.skip(0) =~= chars@);
        assert(views(list@) + words_after(word@, chars@.skip(0)) =~= words(text@));
    }
    while i < chars.len()
        invariant
            i <= chars.len(),
            empty == (word@.len() == 0),
            views(list@) + words_after(word@, chars@.skip(i as int)) == words(text@),
        decreases chars.len() - i,
    {
        let ch: char = chars[i];
        let ghost rest = chars@.skip(i as int);
        let ghost old_list = list@;
        let ghost old_word = word@;
        proof {
            assert(rest[0] == ch);
            assert(rest.drop_first() =~= chars@.skip(i + 1));
        }
        if is_white_space(ch) {
            if !empty {
                list.push(word);
                word = String::new();
                empty = true;
                proof {
                    assert(views(list@) =~= views(old_list).push(old_word));
                    assert(views(list@) + words_after(Seq::empty(), chars@.skip(i + 1))
                        =~= views(old_list) + (seq![old_word] + words_after(
                        Seq::empty(),
                        chars@.skip(i + 1),
                    )));
                }
            } else {
                assert(word@ =~= Seq::<char>::empty());
            }
        } else {
            word.push(ch);
            empty = false;
        }
        i = i + 1;
    }
    let ghost old_list = list@;
    let ghost last = word@;
    assert(chars@.skip(i as int).len() == 0);
    if !empty {
        list.push(word);
        assert(views(list@) =~= views(old_list) + seq![last]);
    } else {
        assert(views(list@) + Seq::<Seq<char>>::empty() =~= views(list@));
    }
    list
}

/// A label with every markdown delimiter escaped and every break replaced by a space.
pub open spec fn literal_text(value: Seq<char>) -> Seq<char>
    decreases value.len(),
{
    if value.len() == 0 {
        Seq::empty()
    } else {
        literal_text(value.drop_last()) + literal_char(value.last())
    }
}

/// How one character of a label is written.
pub open spec fn literal_char(ch: char) -> Seq<char> {
    if control(ch) || white_space(ch) {
        seq![' ']
    } else if punctuation(ch) {
        seq!['\\', ch]
    } else {
        seq![ch]
    }
}

/// Keeps a label literal, including pipes, line breaks and Markdown delimiters.
pub fn literal(value: &str) -> (escaped: String)
    ensures
        escaped@ == literal_text(value@),
{
    let list: Vec<char> = characters(value);
    let mut escaped: String = String::new();
    let mut i: usize = 0;
    assert(list@.take(0) =~= Seq::<char>::empty());
    while i < list.len()
        invariant
            i <= list.len(),
            escaped@ == literal_text(list@.take(i as int)),
        decreases list.len() - i,
    {
        let ch: char = list[i];
        let ghost before = escaped@;
        proof {
            assert(list@.take(i + 1).drop_last() =~= list@.take(i as int));
            assert(list@.take(i + 1).last() == ch);
        }
        if is_control(ch) || is_white_space(ch) {
            escaped.push(' ');
        } else {
            if is_punctuation(ch) {
                escaped.push('\\');
            }
            escaped.push(ch);
        }
        assert(escaped@ =~= before + literal_char(ch));
        i = i + 1;
    }
    assert(list@.take(list.len() as int) =~= value@);
    escaped
}

/// What Markdown shows for a text that has no markup of its own: an escaped delimiter as itself, and
/// any other character that is no delimiter and no break. Nothing for a text with markup.
pub open spec fn shown(markdown: Seq<char>) -> Option<Seq<char>>
    decreases markdown.len(),
{
    if markdown.len() == 0 {
        Some(Seq::empty())
    } else if markdown[0] == '\\' && markdown.len() > 1 && punctuation(markdown[1]) {
        match shown(markdown.skip(2)) {
            Some(rest) => Some(seq![markdown[1]] + rest),
            None => None,
        }
    } else if punctuation(markdown[0]) || control(markdown[0]) {
        None
    } else {
        match shown(markdown.skip(1)) {
            Some(rest) => Some(seq![markdown[0]] + rest),
            None => None,
        }
    }
}

/// A label with every break replaced by a space.
pub open spec fn unbroken(value: Seq<char>) -> Seq<char> {
    Seq::new(
        value.len(),
        |i: int|
            if control(value[i]) || white_space(value[i]) {
                ' '
            } else {
                value[i]
            },
    )
}

/// Texts without markup are shown one after the other.
proof fn lemma_shown_joins(a: Seq<char>, b: Seq<char>)
    requires
        shown(a) is Some,
        shown(b) is Some,
    ensures
        shown(a + b) == Some(shown(a)->0 + shown(b)->0),
    decreases a.len(),
{
    if a.len() == 0 {
        assert(a + b =~= b);
        assert(shown(a)->0 + shown(b)->0 =~= shown(b)->0);
    } else if a[0] == '\\' && a.len() > 1 && punctuation(a[1]) {
        lemma_shown_joins(a.skip(2), b);
        assert((a + b).skip(2) =~= a.skip(2) + b);
        assert(seq![a[1]] + (shown(a.skip(2))->0 + shown(b)->0) =~= seq![a[1]] + shown(
            a.skip(2),
        )->0 + shown(b)->0);
    } else {
        lemma_shown_joins(a.skip(1), b);
        assert((a + b).skip(1) =~= a.skip(1) + b);
        assert(seq![a[0]] + (shown(a.skip(1))->0 + shown(b)->0) =~= seq![a[0]] + shown(
            a.skip(1),
        )->0 + shown(b)->0);
    }
}

/// A literal label has no markup, no pipe and no line break of its own: what is shown is the label,
/// with spaces for its breaks.
pub proof fn law_label_is_shown_as_it_is(value: Seq<char>)
    ensures
        shown(literal_text(value)) == Some(unbroken(value)),
    decreases value.len(),
{
    if value.len() == 0 {
        assert(unbroken(value) =~= Seq::empty());
    } else {
        let shorter = value.drop_last();
        let last = value.last();
        law_label_is_shown_as_it_is(shorter);
        let written = literal_char(last);
        let space = if control(last) || white_space(last) {
            ' '
        } else {
            last
        };
        assert(shown(written) == Some(seq![space])) by {
            assert(shown(Seq::<char>::empty()) == Some(Seq::<char>::empty()));
            if written.len() == 1 {
                assert(written.skip(1) =~= Seq::empty());
                assert(seq![space] + Seq::<char>::empty() =~= seq![space]);
            } else {
                assert(written.skip(2) =~= Seq::empty());
                assert(seq![space] + Seq::<char>::empty() =~= seq![space]);
            }
        }
        lemma_shown_joins(literal_text(shorter), written);
        assert(unbroken(value) =~= unbroken(shorter) + seq![space]);
    }
}

/// A path that is given; an empty one is none.
pub fn non_empty_path(path: Option<String>) -> (kept: Option<String>)
    ensures
        kept == (if path is Some && path->0@.len() > 0 {
            path
        } else {
            None
        }),
{
    match path {
        Some(path) => if path.as_str().unicode_len() > 0 {
            Some(path)
        } else {
            None
        },
        None => None,
    }
}

/// The number that a text of decimal digits stands for.
pub open spec fn digits_read(text: Seq<char>) -> int
    decreases text.len(),
{
    if text.len() == 0 {
        0
    } else {
        10 * digits_read(text.drop_last()) + (text.last() as int - '0' as int)
    }
}

/// A numeral is made of decimal digits, reads as its number, and has no leading zero.
pub proof fn law_numeral_reads_as_its_number(n: nat)
    ensures
        digits(n).len() > 0,
        digits_read(digits(n)) == n,
        forall|i: int| 0 <= i < digits(n).len() ==> '0' <= #[trigger] digits(n)[i] <= '9',
        digits(n).len() > 1 ==> digits(n)[0] != '0',
        n > 0 ==> digits(n)[0] != '0',
    decreases n,
{
    if n < 10 {
        assert(digits(n).drop_last() =~= Seq::empty());
        assert(digits_read(Seq::empty()) == 0);
    } else {
        law_numeral_reads_as_its_number(n / 10);
        assert(digits(n).drop_last() =~= digits(n / 10));
        let text = digits(n);
        assert forall|i: int| 0 <= i < text.len() implies '0' <= #[trigger] text[i] <= '9' by {
            if i < text.len() - 1 {
                assert(text[i] == digits(n / 10)[i]);
            }
        }
        assert(text[0] == digits(n / 10)[0]);
    }
}

/// A number is written with a sign exactly where it is negative, before the numeral of its size.
pub proof fn law_negative_numbers_have_a_sign(n: int)
    ensures
        n >= 0 ==> decimal(n) == digits(n as nat),
        n < 0 ==> decimal(n) == seq!['-'] + digits((0 - n) as nat),
{
}

/// Texts are ordered by the first byte in which their encodings differ; a text comes after its own
/// beginning.
pub proof fn law_first_difference_decides(a: Seq<u8>, b: Seq<u8>)
    ensures
        bytes_before(a, b) <==> exists|k: int|
            {
                &&& 0 <= k <= a.len()
                &&& k < b.len()
                &&& #[trigger] a.take(k) == b.take(k)
                &&& k == a.len() || a[k] < b[k]
            },
    decreases a.len(),
{
    if b.len() > 0 && a.len() == 0 {
        assert(a.take(0) =~= b.take(0));
    } else if b.len() > 0 && a[0] != b[0] {
        assert(a.take(0) =~= b.take(0));
        assert forall|k: int| 0 < k <= a.len() && k < b.len() implies #[trigger] a.take(k)
            != b.take(k) by {
            assert(a.take(k)[0] == a[0]);
            assert(b.take(k)[0] == b[0]);
        }
    } else if b.len() > 0 {
        let rest = a.drop_first();
        let other = b.drop_first();
        law_first_difference_decides(rest, other);
        if bytes_before(rest, other) {
            let k = choose|k: int|
                {
                    &&& 0 <= k <= rest.len()
                    &&& k < other.len()
                    &&& #[trigger] rest.take(k) == other.take(k)
                    &&& k == rest.len() || rest[k] < other[k]
                };
            assert(a.take(k + 1) =~= seq![a[0]] + rest.take(k));
            assert(b.take(k + 1) =~= seq![b[0]] + other.take(k));
            assert(a.take(k + 1) == b.take(k + 1));
        }
        if exists|k: int|
            {
                &&& 0 <= k <= a.len()
                &&& k < b.len()
                &&& #[trigger] a.take(k) == b.take(k)
                &&& k == a.len() || a[k] < b[k]
            } {
            let k = choose|k: int|
                {
                    &&& 0 <= k <= a.len()
                    &&& k < b.len()
                    &&& #[trigger] a.take(k) == b.take(k)
                    &&& k == a.len() || a[k] < b[k]
                };
            assert(k > 0);
            assert(rest.take(k - 1) =~= a.take(k).drop_first());
            assert(other.take(k - 1) =~= b.take(k).drop_first());
            assert(rest.take(k - 1) == other.take(k - 1));
        }
    }
}

/// Texts are ordered as the bytes of their encodings are.
pub proof fn law_texts_are_ordered_by_their_bytes(a: Seq<char>, b: Seq<char>)
    ensures
        text_before(a, b) == bytes_before(encode_utf8(a), encode_utf8(b)),
{
}

/// Joining puts the separator between neighbours and nowhere else: one part is itself, none is
/// empty, and two joined lists have one separator between them.
pub proof fn law_joining(
    first: Seq<Seq<char>>,
    second: Seq<Seq<char>>,
    part: Seq<char>,
    separator: Seq<char>,
)
    ensures
        joined(seq![part], separator) == part,
        joined(Seq::empty(), separator).len() == 0,
        first.len() > 0 && second.len() > 0 ==> joined(first + second, separator) == joined(
            first,
            separator,
        ) + separator + joined(second, separator),
    decreases second.len(),
{
    if first.len() > 0 && second.len() == 1 {
        assert((first + second).drop_last() =~= first);
        assert((first + second).last() == second[0]);
    } else if first.len() > 0 && second.len() > 1 {
        let shorter = second.drop_last();
        law_joining(first, shorter, part, separator);
        assert((first + second).drop_last() =~= first + shorter);
        assert((first + second).last() == second.last());
        assert(joined(first + second, separator) =~= joined(first, separator) + separator + joined(
            second,
            separator,
        ));
    }
}

/// White space separates words: what stands before a character of white space and what stands after
/// it are split apart, a text without any is one word, and an empty one is none.
pub proof fn law_white_space_separates_words(before: Seq<char>, space: char, after: Seq<char>)
    requires
        white_space(space),
    ensures
        words(before + seq![space] + after) == words(before) + words(after),
{
    lemma_words_split(Seq::empty(), before, space, after);
}

/// White space ends the word that is unfinished.
proof fn lemma_words_split(open: Seq<char>, before: Seq<char>, space: char, after: Seq<char>)
    requires
        white_space(space),
    ensures
        words_after(open, before + seq![space] + after) == words_after(open, before)
            + words_after(Seq::empty(), after),
    decreases before.len(),
{
    let whole = before + seq![space] + after;
    if before.len() == 0 {
        assert(whole[0] == space);
        assert(whole.drop_first() =~= after);
        assert(words_after(open, whole) =~= words_after(open, before) + words_after(
            Seq::empty(),
            after,
        ));
    } else {
        let rest = before.drop_first();
        assert(whole[0] == before[0]);
        assert(whole.drop_first() =~= rest + seq![space] + after);
        if white_space(before[0]) {
            lemma_words_split(Seq::empty(), rest, space, after);
        } else {
            lemma_words_split(open.push(before[0]), rest, space, after);
        }
        assert(words_after(open, whole) =~= words_after(open, before) + words_after(
            Seq::empty(),
            after,
        ));
    }
}

/// A text without white space is one word, and an empty one is none.
pub proof fn law_unbroken_text_is_one_word(word: Seq<char>)
    requires
        forall|i: int| 0 <= i < word.len() ==> !white_space(#[trigger] word[i]),
    ensures
        words(word) == if word.len() == 0 {
            Seq::empty()
        } else {
            seq![word]
        },
{
    lemma_one_word(Seq::empty(), word);
    assert(Seq::<char>::empty() + word =~= word);
}

/// Characters that are not white space add to the word that is unfinished.
proof fn lemma_one_word(open: Seq<char>, word: Seq<char>)
    requires
        forall|i: int| 0 <= i < word.len() ==> !white_space(#[trigger] word[i]),
    ensures
        words_after(open, word) == if open.len() + word.len() == 0 {
            Seq::empty()
        } else {
            seq![open + word]
        },
    decreases word.len(),
{
    if word.len() == 0 {
        assert(open + word =~= open);
    } else {
        let rest = word.drop_first();
        assert forall|i: int| 0 <= i < rest.len() implies !white_space(#[trigger] rest[i]) by {
            assert(rest[i] == word[i + 1]);
        }
        lemma_one_word(open.push(word[0]), rest);
        assert(open.push(word[0]) + rest =~= open + word);
    }
}

/// Space, tab and line breaks are white space, and so is no letter, digit or punctuation mark;
/// punctuation is every visible ASCII character that is neither a letter nor a digit; the control
/// codes are those before the space and from the delete code on to the next space.
pub proof fn law_character_classes(ch: char)
    ensures
        ch == ' ' || ch == '\t' || ch == '\n' || ch == '\r' ==> white_space(ch),
        '!' <= ch && ch <= '~' ==> !white_space(ch) && !control(ch),
        punctuation(ch) <==> '!' <= ch && ch <= '~' && !('0' <= ch && ch <= '9') && !('a' <= ch
            && ch <= 'z') && !('A' <= ch && ch <= 'Z'),
        control(ch) <==> ch < ' ' || (ch as u32 >= 0x7f && (ch as u32) < 0xa0),
        white_space(ch) && ch as u32 >= 0x80 ==> ch as u32 == 0x85 || ch as u32 == 0xa0 || ch as u32
            == 0x1680 || (0x2000 <= ch as u32 && ch as u32 <= 0x205f) || ch as u32 == 0x3000,
{
}

/// A label is written character by character: a break as a space, punctuation after a backslash, and
/// anything else as it is.
pub proof fn law_label_is_written_by_characters(first: Seq<char>, second: Seq<char>, ch: char)
    ensures
        literal_text(first + second) == literal_text(first) + literal_text(second),
        literal_text(seq![ch]) == (if control(ch) || white_space(ch) {
            seq![' ']
        } else if punctuation(ch) {
            seq!['\\', ch]
        } else {
            seq![ch]
        }),
    decreases second.len(),
{
    assert(seq![ch].drop_last() =~= Seq::empty());
    assert(literal_text(Seq::<char>::empty()) =~= Seq::<char>::empty());
    assert(literal_text(seq![ch]) =~= literal_char(ch));
    if second.len() == 0 {
        assert(first + second =~= first);
        assert(literal_text(first) + literal_text(second) =~= literal_text(first));
    } else {
        law_label_is_written_by_characters(first, second.drop_last(), ch);
        assert((first + second).drop_last() =~= first + second.drop_last());
        assert((first + second).last() == second.last());
        assert(literal_text(first + second) =~= literal_text(first) + literal_text(second));
    }
}

/// A list is seen item by item, in order, and an item that may be missing as itself.
pub proof fn law_items_are_seen_as_they_are<T: View>(items: Seq<T>, item: Option<T>)
    ensures
        views(items).len() == items.len(),
        forall|i: int| 0 <= i < items.len() ==> #[trigger] views(items)[i] == items[i]@,
        opt_view(item) is Some <==> item is Some,
        item is Some ==> opt_view(item)->0 == item->0@,
{
}

} // verus!
