//! Small operations on text, stated over sequences of characters.
use vstd::prelude::*;
use vstd::string::*;
use vstd::utf8::*;

verus! {

/// `prefix` is the longest prefix of `full` whose UTF-8 form has at most `max_bytes` bytes.
pub open spec fn is_longest_prefix(prefix: Seq<char>, full: Seq<char>, max_bytes: int) -> bool {
    &&& prefix.is_prefix_of(full)
    &&& encode_utf8(prefix).len() <= max_bytes
    &&& forall|longer: Seq<char>|
        #![trigger longer.is_prefix_of(full)]
        longer.is_prefix_of(full) && longer.len() > prefix.len() ==> encode_utf8(longer).len()
            > max_bytes
}

/// Encoding distributes over concatenation.
pub proof fn lemma_encode_concat(a: Seq<char>, b: Seq<char>)
    ensures
        encode_utf8(a + b) == encode_utf8(a) + encode_utf8(b),
    decreases a.len(),
{
    if a.len() == 0 {
        assert(a + b =~= b);
    } else {
        lemma_encode_concat(a.drop_first(), b);
        assert((a + b).drop_first() =~= a.drop_first() + b);
        assert((a + b)[0] == a[0]);
    }
}

/// Texts with the same bytes are the same text.
pub proof fn lemma_encode_injective(a: Seq<char>, b: Seq<char>)
    ensures
        encode_utf8(a) == encode_utf8(b) <==> a == b,
{
    encode_utf8_decode_utf8(a);
    encode_utf8_decode_utf8(b);
}

/// The end of any prefix is a character boundary.
pub proof fn lemma_prefix_ends_on_boundary(prefix: Seq<char>, full: Seq<char>)
    requires
        prefix.is_prefix_of(full),
    ensures
        encode_utf8(prefix).len() <= encode_utf8(full).len(),
        is_char_boundary(encode_utf8(full), encode_utf8(prefix).len() as int),
    decreases prefix.len(),
{
    let rest = full.subrange(prefix.len() as int, full.len() as int);
    assert(full =~= prefix + rest);
    lemma_encode_concat(prefix, rest);
    encode_utf8_valid_utf8(full);
    if prefix.len() > 0 {
        encode_utf8_first_scalar(full);
        lemma_prefix_ends_on_boundary(prefix.drop_first(), full.drop_first());
        assert(pop_first_scalar(encode_utf8(full)) =~= encode_utf8(full.drop_first()));
        assert(prefix[0] == full[0]);
    }
}

/// Returns the longest prefix of `text` that takes at most `max_bytes` bytes.
pub fn truncate_utf8(text: &str, max_bytes: usize) -> (kept: &str)
    ensures
        is_longest_prefix(kept@, text@, max_bytes as int),
{
    let length: usize = text.as_bytes().len();
    let mut end: usize = if max_bytes < length {
        max_bytes
    } else {
        length
    };
    proof {
        encode_utf8_valid_utf8(text@);
        is_char_boundary_start_end_of_seq(text.spec_bytes());
    }
    while !text.is_char_boundary(end)
        invariant
            valid_utf8(text.spec_bytes()),
            is_char_boundary(text.spec_bytes(), 0),
            end <= max_bytes,
            end <= text.spec_bytes().len(),
            forall|later: int|
                end < later <= max_bytes && later <= text.spec_bytes().len()
                    ==> !#[trigger] is_char_boundary(text.spec_bytes(), later),
        decreases end,
    {
        end = end - 1;
    }
    let (kept, rest) = text.split_at(end);
    proof {
        let bytes = text.spec_bytes();
        decode_utf8_split(bytes, end as int);
        encode_utf8_decode_utf8(text@);
        encode_utf8_decode_utf8(kept@);
        assert(kept@.is_prefix_of(text@));
        assert forall|longer: Seq<char>|
            #![trigger longer.is_prefix_of(text@)]
            longer.is_prefix_of(text@) && longer.len() > kept@.len() implies encode_utf8(
            longer,
        ).len() > max_bytes by {
            lemma_prefix_ends_on_boundary(longer, text@);
            let extra = longer.subrange(kept@.len() as int, longer.len() as int);
            assert(longer =~= kept@ + extra);
            lemma_encode_concat(kept@, extra);
            encode_utf8_first_scalar(extra);
        }
    }
    kept
}

/// Whether `a` comes before `b` when compared byte by byte.
pub open spec fn bytes_before(a: Seq<u8>, b: Seq<u8>) -> bool
    decreases a.len(),
{
    if b.len() == 0 {
        false
    } else if a.len() == 0 {
        true
    } else if a[0] != b[0] {
        a[0] < b[0]
    } else {
        bytes_before(a.drop_first(), b.drop_first())
    }
}

/// The order of text: by its UTF-8 bytes.
pub open spec fn text_before(a: Seq<char>, b: Seq<char>) -> bool {
    bytes_before(encode_utf8(a), encode_utf8(b))
}

/// Byte order is irreflexive, total and transitive.
pub proof fn lemma_bytes_before_total_order(a: Seq<u8>, b: Seq<u8>, c: Seq<u8>)
    ensures
        !bytes_before(a, a),
        a != b ==> (bytes_before(a, b) <==> !bytes_before(b, a)),
        bytes_before(a, b) && bytes_before(b, c) ==> bytes_before(a, c),
    decreases a.len() + b.len(),
{
    if a.len() > 0 {
        if b.len() > 0 {
            if c.len() > 0 {
                lemma_bytes_before_total_order(a.drop_first(), b.drop_first(), c.drop_first());
            } else {
                lemma_bytes_before_total_order(a.drop_first(), b.drop_first(), c);
            }
            assert(a =~= seq![a[0]] + a.drop_first());
            assert(b =~= seq![b[0]] + b.drop_first());
        } else {
            lemma_bytes_before_total_order(a.drop_first(), b, c);
        }
    } else {
        assert(a != b ==> b.len() > 0) by {
            if b.len() == 0 {
                assert(a =~= b);
            }
        }
    }
}

/// Text order is irreflexive, total and transitive.
pub proof fn lemma_text_before_total_order(a: Seq<char>, b: Seq<char>, c: Seq<char>)
    ensures
        !text_before(a, a),
        a != b ==> (text_before(a, b) <==> !text_before(b, a)),
        text_before(a, b) && text_before(b, c) ==> text_before(a, c),
{
    lemma_encode_injective(a, b);
    lemma_bytes_before_total_order(encode_utf8(a), encode_utf8(b), encode_utf8(c));
}

/// How one text stands to another in text order.
#[derive(Clone, Copy, PartialEq, Eq, Structural)]
pub enum Placed {
    Before,
    Same,
    After,
}

/// Compares two texts by their bytes.
pub fn place(a: &str, b: &str) -> (placed: Placed)
    ensures
        placed == Placed::Same <==> a@ == b@,
        placed == Placed::Before <==> text_before(a@, b@),
        placed == Placed::After <==> text_before(b@, a@),
{
    let left: &[u8] = a.as_bytes();
    let right: &[u8] = b.as_bytes();
    proof {
        lemma_text_before_total_order(a@, b@, a@);
        lemma_encode_injective(a@, b@);
    }
    let ghost lb = left@;
    let ghost rb = right@;
    let mut i: usize = 0;
    assert(lb.skip(0) =~= lb);
    assert(rb.skip(0) =~= rb);
    while i < left.len() && i < right.len()
        invariant
            left@ == lb,
            right@ == rb,
            i <= lb.len(),
            i <= rb.len(),
            lb.take(i as int) =~= rb.take(i as int),
            bytes_before(lb, rb) <==> bytes_before(lb.skip(i as int), rb.skip(i as int)),
            lb == encode_utf8(a@),
            rb == encode_utf8(b@),
            a@ != b@ ==> (text_before(a@, b@) <==> !text_before(b@, a@)),
            !text_before(a@, a@),
            lb == rb <==> a@ == b@,
        decreases lb.len() - i,
    {
        assert(lb.skip(i as int)[0] == lb[i as int]);
        assert(rb.skip(i as int)[0] == rb[i as int]);
        if left[i] != right[i] {
            if left[i] < right[i] {
                return Placed::Before;
            } else {
                return Placed::After;
            }
        }
        assert(lb.skip(i as int).drop_first() =~= lb.skip(i + 1));
        assert(rb.skip(i as int).drop_first() =~= rb.skip(i + 1));
        assert(lb.take(i + 1) =~= lb.take(i as int).push(lb[i as int]));
        assert(rb.take(i + 1) =~= rb.take(i as int).push(rb[i as int]));
        i = i + 1;
    }
    assert(lb.take(lb.len() as int) =~= lb);
    assert(rb.take(rb.len() as int) =~= rb);
    if left.len() < right.len() {
        Placed::Before
    } else if left.len() == right.len() {
        Placed::Same
    } else {
        Placed::After
    }
}

/// Whether two texts are the same.
pub fn same_text(a: &str, b: &str) -> (same: bool)
    ensures
        same == (a@ == b@),
{
    match place(a, b) {
        Placed::Same => true,
        _ => false,
    }
}

/// `text` is `before`, then `separator`, then `after`, and this is the first place where the
/// separator stands.
pub open spec fn is_split_at_first(
    text: Seq<char>,
    separator: char,
    before: Seq<char>,
    after: Seq<char>,
) -> bool {
    text == before + seq![separator] + after && !before.contains(separator)
}

/// There is one first place where a separator stands.
pub proof fn lemma_split_is_unique(
    text: Seq<char>,
    separator: char,
    before: Seq<char>,
    after: Seq<char>,
    other_before: Seq<char>,
    other_after: Seq<char>,
)
    requires
        is_split_at_first(text, separator, before, after),
        is_split_at_first(text, separator, other_before, other_after),
    ensures
        before == other_before,
        after == other_after,
{
    assert(text[before.len() as int] == separator);
    assert(text[other_before.len() as int] == separator);
    if before.len() < other_before.len() {
        assert(other_before[before.len() as int] == separator);
    }
    if other_before.len() < before.len() {
        assert(before[other_before.len() as int] == separator);
    }
    assert(before =~= text.take(before.len() as int));
    assert(other_before =~= text.take(before.len() as int));
    assert(after =~= text.skip(before.len() as int + 1));
    assert(other_after =~= text.skip(before.len() as int + 1));
}

/// An ASCII character stands among the bytes as itself.
proof fn lemma_ascii_byte(chars: Seq<char>, k: int)
    requires
        0 <= k < chars.len(),
        chars[k] as u32 <= 0x7f,
    ensures
        encode_utf8(chars.take(k)).len() < encode_utf8(chars).len(),
        encode_utf8(chars)[encode_utf8(chars.take(k)).len() as int] == (chars[k] as u32) as u8,
{
    let rest = chars.skip(k);
    assert(chars =~= chars.take(k) + rest);
    lemma_encode_concat(chars.take(k), rest);
    assert(rest[0] == chars[k]);
    assert(encode_utf8(rest) == encode_scalar(rest[0] as u32) + encode_utf8(rest.drop_first()));
    let c = chars[k] as u32;
    assert(encode_scalar(c) =~= seq![c as u8]) by {
        assert((c & 0x7F) as u8 == c as u8) by (bit_vector)
            requires
                c <= 0x7f,
        ;
    }
}

/// Splits `text` at its first colon.
pub fn split_at_colon(text: &str) -> (parts: Option<(&str, &str)>)
    ensures
        match parts {
            Some((before, after)) => is_split_at_first(text@, ':', before@, after@),
            None => !text@.contains(':'),
        },
{
    let bytes: &[u8] = text.as_bytes();
    let mut i: usize = 0;
    while i < bytes.len()
        invariant
            bytes@ == encode_utf8(text@),
            i <= bytes.len(),
            forall|j: int| 0 <= j < i ==> #[trigger] bytes[j] != 0x3a,
        decreases bytes.len() - i,
    {
        if bytes[i] == 0x3a {
            proof {
                encode_utf8_valid_utf8(text@);
                assert(is_leading_byte_width_1(bytes@[i as int])) by {
                    assert(0x3au8 & 0x80 == 0) by (bit_vector);
                }
                is_char_boundary_iff_is_leading_byte(bytes@, i as int);
            }
            let (before, rest) = text.split_at(i);
            proof {
                let tail = encode_utf8(rest@);
                encode_utf8_valid_utf8(rest@);
                assert(tail[0] == 0x3a);
                assert(rest@.len() > 0);
                encode_utf8_first_scalar(rest@);
                reveal_with_fuel(is_char_boundary, 2);
                assert(is_char_boundary(tail, 1));
            }
            let (colon, after) = rest.split_at(1);
            proof {
                decode_utf8_split(encode_utf8(text@), i as int);
                decode_utf8_split(encode_utf8(rest@), 1);
                encode_utf8_decode_utf8(text@);
                encode_utf8_decode_utf8(before@);
                encode_utf8_decode_utf8(rest@);
                encode_utf8_decode_utf8(colon@);
                encode_utf8_decode_utf8(after@);
                lemma_colon_is_its_byte(colon@);
                assert(text@ =~= before@ + rest@);
                assert(rest@ =~= colon@ + after@);
                assert(text@ =~= before@ + seq![':'] + after@);
                if before@.contains(':') {
                    let k = choose|k: int| 0 <= k < before@.len() && before@[k] == ':';
                    lemma_ascii_byte(before@, k);
                    let at = encode_utf8(before@.take(k)).len() as int;
                    assert(bytes[at] == 0x3a);
                }
            }
            return Some((before, after));
        }
        i = i + 1;
    }
    proof {
        if text@.contains(':') {
            let k = choose|k: int| 0 <= k < text@.len() && text@[k] == ':';
            lemma_ascii_byte(text@, k);
            let at = encode_utf8(text@.take(k)).len() as int;
            assert(bytes[at] == 0x3a);
        }
    }
    None
}

/// The text whose only byte is that of a colon is a colon.
proof fn lemma_colon_is_its_byte(text: Seq<char>)
    requires
        encode_utf8(text) =~= seq![0x3au8],
    ensures
        text == seq![':'],
{
    lemma_ascii_byte(seq![':'], 0);
    assert(encode_utf8(seq![':']) =~= seq![0x3au8]) by {
        reveal_with_fuel(encode_utf8, 2);
        assert(seq![':'].drop_first() =~= Seq::<char>::empty());
        assert((0x3au32 & 0x7F) as u8 == 0x3a) by (bit_vector);
    }
    lemma_encode_injective(text, seq![':']);
}

/// What a list of strings holds.
pub open spec fn texts(strings: Seq<String>) -> Seq<Seq<char>> {
    Seq::new(strings.len(), |i: int| strings[i]@)
}

/// The text of a literal that may be missing.
pub open spec fn option_str(text: Option<&'static str>) -> Option<Seq<char>> {
    match text {
        Some(t) => Some(t@),
        None => None,
    }
}

/// What a string that may be missing holds.
pub open spec fn option_text(string: Option<String>) -> Option<Seq<char>> {
    match string {
        Some(s) => Some(s@),
        None => None,
    }
}

/// Copies a list of strings.
pub fn clone_texts(strings: &Vec<String>) -> (copy: Vec<String>)
    ensures
        texts(copy@) == texts(strings@),
{
    let mut copy: Vec<String> = Vec::new();
    let mut i: usize = 0;
    while i < strings.len()
        invariant
            i <= strings.len(),
            copy.len() == i,
            forall|j: int| 0 <= j < i ==> #[trigger] copy[j]@ == strings[j]@,
        decreases strings.len() - i,
    {
        copy.push(strings[i].clone());
        i = i + 1;
    }
    assert(texts(copy@) =~= texts(strings@));
    copy
}

/// The texts one after another, with `separator` between them.
pub open spec fn joined(parts: Seq<Seq<char>>, separator: Seq<char>) -> Seq<char>
    decreases parts.len(),
{
    if parts.len() == 0 {
        Seq::empty()
    } else if parts.len() == 1 {
        parts[0]
    } else {
        joined(parts.drop_last(), separator) + separator + parts.last()
    }
}

/// What a list of string slices holds.
pub open spec fn slice_texts(slices: Seq<&'static str>) -> Seq<Seq<char>> {
    Seq::new(slices.len(), |i: int| slices[i]@)
}

proof fn lemma_joined_next(parts: Seq<Seq<char>>, separator: Seq<char>, i: int)
    requires
        0 <= i < parts.len(),
    ensures
        joined(parts.take(i + 1), separator) == if i == 0 {
            parts[0]
        } else {
            joined(parts.take(i), separator) + separator + parts[i]
        },
{
    let next = parts.take(i + 1);
    if i > 0 {
        assert(next.drop_last() =~= parts.take(i));
    }
}

/// Joins strings with `separator` between them.
pub fn join(parts: &Vec<String>, separator: &str) -> (text: String)
    ensures
        text@ == joined(texts(parts@), separator@),
{
    let mut text: String = String::new();
    let mut i: usize = 0;
    let ghost all = texts(parts@);
    while i < parts.len()
        invariant
            i <= parts.len(),
            all == texts(parts@),
            text@ == joined(all.take(i as int), separator@),
        decreases parts.len() - i,
    {
        if i > 0 {
            text.append(separator);
        }
        text.append(parts[i].as_str());
        proof {
            lemma_joined_next(all, separator@, i as int);
            assert(all[i as int] == parts[i as int]@);
            if i == 0 {
                assert(text@ =~= all[0]);
            }
        }
        i = i + 1;
    }
    assert(all.take(all.len() as int) =~= all);
    text
}

/// Joins string slices with `separator` between them.
pub fn join_slices(parts: &[&'static str], separator: &str) -> (text: String)
    ensures
        text@ == joined(slice_texts(parts@), separator@),
{
    let mut text: String = String::new();
    let mut i: usize = 0;
    let ghost all = slice_texts(parts@);
    while i < parts.len()
        invariant
            i <= parts.len(),
            all == slice_texts(parts@),
            text@ == joined(all.take(i as int), separator@),
        decreases parts.len() - i,
    {
        if i > 0 {
            text.append(separator);
        }
        text.append(parts[i]);
        proof {
            lemma_joined_next(all, separator@, i as int);
            assert(all[i as int] == parts[i as int]@);
            if i == 0 {
                assert(text@ =~= all[0]);
            }
        }
        i = i + 1;
    }
    assert(all.take(all.len() as int) =~= all);
    text
}

/// Where the bytes stop being text.
#[derive(Clone, Copy, Debug)]
pub struct Utf8Fault {
    /// How many bytes from the start are text.
    pub valid_up_to: usize,
    /// The bytes after them could be the start of one more character.
    pub incomplete: bool,
}

/// The bytes are the start, but not the whole, of the encoding of a character.
pub open spec fn starts_character(bytes: Seq<u8>) -> bool {
    exists|c: char|
        bytes.len() < #[trigger] encode_scalar(c as u32).len() && bytes == encode_scalar(
            c as u32,
        ).take(bytes.len() as int)
}

/// The bytes are no text: the longest valid prefix is shorter, and what follows it is either the
/// start of a character or not.
pub open spec fn is_utf8_fault(bytes: Seq<u8>, fault: Utf8Fault) -> bool {
    let n = fault.valid_up_to as int;
    &&& n < bytes.len()
    &&& valid_utf8(bytes.take(n))
    &&& forall|m: int| n < m <= bytes.len() ==> !valid_utf8(#[trigger] bytes.take(m))
    &&& fault.incomplete <==> starts_character(bytes.skip(n))
}

/// Calls `std::str::from_utf8`, and `valid_up_to` and `error_len` of its error. Claimed: the bytes
/// are text exactly if they are valid UTF-8; otherwise the error tells the longest valid prefix,
/// and whether the bytes after it only lack the rest of a character.
#[verifier::external_body]
pub(crate) fn utf8_text(bytes: &[u8]) -> (text: Result<&str, Utf8Fault>)
    ensures
        match text {
            Ok(t) => valid_utf8(bytes@) && encode_utf8(t@) == bytes@,
            Err(fault) => is_utf8_fault(bytes@, fault),
        },
{
    match std::str::from_utf8(bytes) {
        Ok(text) => Ok(text),
        Err(error) => Err(
            Utf8Fault {
                valid_up_to: error.valid_up_to(),
                incomplete: error.error_len().is_none(),
            },
        ),
    }
}

/// What the `Debug` of `str` prints for a text: the text in double quotes, with escapes.
pub uninterp spec fn quoted_text(text: Seq<char>) -> Seq<char>;

/// Calls the `Debug` of `str`. Claimed: what is printed depends on the text alone.
#[verifier::external_body]
pub(crate) fn quoted(text: &str) -> (printed: String)
    ensures
        printed@ == quoted_text(text@),
{
    format!("{:?}", text)
}

/// The characters that Unicode gives the property `White_Space`.
pub open spec fn is_white_space(c: char) -> bool {
    let code = c as u32;
    ||| 0x9 <= code <= 0xd
    ||| code == 0x20
    ||| code == 0x85
    ||| code == 0xa0
    ||| code == 0x1680
    ||| 0x2000 <= code <= 0x200a
    ||| code == 0x2028
    ||| code == 0x2029
    ||| code == 0x202f
    ||| code == 0x205f
    ||| code == 0x3000
}

/// Every character is white space.
pub open spec fn is_blank(text: Seq<char>) -> bool {
    forall|i: int| 0 <= i < text.len() ==> is_white_space(#[trigger] text[i])
}

/// `kept` is `text` without the white space at its start and at its end.
pub open spec fn is_trimmed(kept: Seq<char>, text: Seq<char>) -> bool {
    &&& exists|start: int|
        0 <= start && start + kept.len() <= text.len() && kept == #[trigger] text.subrange(
            start,
            start + kept.len(),
        ) && is_blank(text.take(start)) && is_blank(text.skip(start + kept.len()))
    &&& kept.len() > 0 ==> !is_white_space(kept[0]) && !is_white_space(kept.last())
}

/// Calls `str::trim`. Claimed: it takes the characters with the Unicode property `White_Space`
/// from both ends, and no others.
#[verifier::external_body]
pub(crate) fn trimmed(text: &str) -> (kept: &str)
    ensures
        is_trimmed(kept@, text@),
{
    text.trim()
}

/// Trimming leaves nothing of a text exactly if it is blank.
pub proof fn lemma_trimmed_blank(kept: Seq<char>, text: Seq<char>)
    requires
        is_trimmed(kept, text),
    ensures
        kept.len() == 0 <==> is_blank(text),
{
    let start = choose|start: int|
        0 <= start && start + kept.len() <= text.len() && kept == #[trigger] text.subrange(
            start,
            start + kept.len(),
        ) && is_blank(text.take(start)) && is_blank(text.skip(start + kept.len()));
    if kept.len() == 0 {
        assert forall|i: int| 0 <= i < text.len() implies is_white_space(#[trigger] text[i]) by {
            if i < start {
                assert(text.take(start)[i] == text[i]);
            } else {
                assert(text.skip(start)[i - start] == text[i]);
            }
        }
    } else if is_blank(text) {
        assert(kept[0] == text[start]);
    }
}

/// There is one way to trim a text.
pub proof fn lemma_trimmed_is_unique(a: Seq<char>, b: Seq<char>, text: Seq<char>)
    requires
        is_trimmed(a, text),
        is_trimmed(b, text),
    ensures
        a == b,
{
    lemma_trimmed_blank(a, text);
    lemma_trimmed_blank(b, text);
    let i = choose|start: int|
        0 <= start && start + a.len() <= text.len() && a == #[trigger] text.subrange(
            start,
            start + a.len(),
        ) && is_blank(text.take(start)) && is_blank(text.skip(start + a.len()));
    let j = choose|start: int|
        0 <= start && start + b.len() <= text.len() && b == #[trigger] text.subrange(
            start,
            start + b.len(),
        ) && is_blank(text.take(start)) && is_blank(text.skip(start + b.len()));
    if a.len() == 0 {
        assert(a =~= b);
    } else {
        assert(a[0] == text[i]);
        assert(b[0] == text[j]);
        assert(a.last() == text[i + a.len() - 1]);
        assert(b.last() == text[j + b.len() - 1]);
        if i < j {
            assert(text.take(j)[i] == text[i]);
        }
        if j < i {
            assert(text.take(i)[j] == text[j]);
        }
        if a.len() < b.len() {
            assert(text.skip(i + a.len())[b.len() - 1 - a.len()] == b.last());
        }
        if b.len() < a.len() {
            assert(text.skip(j + b.len())[a.len() - 1 - b.len()] == a.last());
        }
    }
}

/// `part` occurs in `text`.
pub open spec fn occurs_in(part: Seq<char>, text: Seq<char>) -> bool {
    exists|start: int|
        0 <= start && start + part.len() <= text.len() && part == #[trigger] text.subrange(
            start,
            start + part.len(),
        )
}

/// Calls `str::contains`. Claimed: it tells whether the part is a slice of the text.
#[verifier::external_body]
pub(crate) fn contains(text: &str, part: &str) -> (found: bool)
    ensures
        found == occurs_in(part@, text@),
{
    text.contains(part)
}

/// The decimal digits of `n`, most significant first.
pub open spec fn decimal_text(n: nat) -> Seq<char>
    decreases n,
{
    if n < 10 {
        seq![digit_char(n)]
    } else {
        decimal_text(n / 10).push(digit_char(n % 10))
    }
}

/// The decimal digit `d`.
pub open spec fn digit_char(d: nat) -> char {
    ('0' as u32 + d) as char
}

fn digit(d: u64) -> (text: &'static str)
    requires
        d < 10,
    ensures
        text@ == seq![digit_char(d as nat)],
{
    proof {
        reveal_strlit("0");
        reveal_strlit("1");
        reveal_strlit("2");
        reveal_strlit("3");
        reveal_strlit("4");
        reveal_strlit("5");
        reveal_strlit("6");
        reveal_strlit("7");
        reveal_strlit("8");
        reveal_strlit("9");
    }
    match d {
        0 => "0",
        1 => "1",
        2 => "2",
        3 => "3",
        4 => "4",
        5 => "5",
        6 => "6",
        7 => "7",
        8 => "8",
        _ => "9",
    }
}

/// Writes `n` in decimal.
pub fn decimal(n: u64) -> (text: String)
    ensures
        text@ == decimal_text(n as nat),
    decreases n,
{
    if n < 10 {
        digit(n).to_owned()
    } else {
        let mut text: String = decimal(n / 10);
        text.append(digit(n % 10));
        assert(decimal_text((n / 10) as nat) + seq![digit_char((n % 10) as nat)]
            =~= decimal_text(n as nat));
        text
    }
}

/// The longest prefix within a limit is the whole text where that is within it; otherwise it is
/// within the limit, and one more character would not be.
pub proof fn law_longest_prefix_fills_the_limit(prefix: Seq<char>, full: Seq<char>, max_bytes: int)
    requires
        is_longest_prefix(prefix, full, max_bytes),
    ensures
        encode_utf8(full).len() <= max_bytes ==> prefix == full,
        prefix == full.take(prefix.len() as int),
        encode_utf8(prefix).len() <= max_bytes,
        prefix.len() < full.len() ==> encode_utf8(full.take(prefix.len() as int + 1)).len()
            > max_bytes,
{
    assert(full.is_prefix_of(full)) by {
        assert(full =~= full.take(full.len() as int));
    }
    if prefix.len() == full.len() {
        assert(prefix =~= full);
    }
    if prefix.len() < full.len() {
        let longer = full.take(prefix.len() as int + 1);
        assert(longer =~= full.take(longer.len() as int));
        assert(longer.is_prefix_of(full));
    }
}

/// Joining puts the separator between the parts and nowhere else: one part is left as it is, and two
/// lists are joined as the one, the separator, and the other.
pub proof fn law_separator_stands_between(
    first: Seq<Seq<char>>,
    second: Seq<Seq<char>>,
    part: Seq<char>,
    separator: Seq<char>,
)
    ensures
        joined(seq![part], separator) == part,
        joined(Seq::<Seq<char>>::empty(), separator).len() == 0,
        first.len() > 0 && second.len() > 0 ==> joined(first + second, separator) == joined(
            first,
            separator,
        ) + separator + joined(second, separator),
    decreases second.len(),
{
    if first.len() > 0 && second.len() > 0 {
        let all = first + second;
        assert(all.drop_last() =~= first + second.drop_last());
        assert(all.last() == second.last());
        if second.len() == 1 {
            assert(first + second.drop_last() =~= first);
        } else {
            law_separator_stands_between(first, second.drop_last(), part, separator);
        }
        assert(joined(all, separator) =~= joined(first, separator) + separator + joined(
            second,
            separator,
        ));
    }
}

/// The number that decimal digits stand for.
pub open spec fn decimal_value(digits: Seq<char>) -> int
    decreases digits.len(),
{
    if digits.len() == 0 {
        0
    } else {
        decimal_value(digits.drop_last()) * 10 + (digits.last() as u32 - '0' as u32)
    }
}

/// A number reads back from its decimal form, which is made of digits alone.
pub proof fn law_decimal_reads_back(n: nat)
    ensures
        decimal_value(decimal_text(n)) == n,
        decimal_text(n).len() > 0,
        forall|i: int|
            0 <= i < decimal_text(n).len() ==> '0' as u32 <= (#[trigger] decimal_text(n)[i]) as u32
                <= '9' as u32,
    decreases n,
{
    let digits = decimal_text(n);
    if n < 10 {
        assert(digits.drop_last() =~= Seq::empty());
        assert(decimal_value(digits.drop_last()) == 0);
    } else {
        law_decimal_reads_back(n / 10);
        assert(digits.drop_last() =~= decimal_text(n / 10));
    }
}

/// Text is ordered by the first byte in which two texts differ; a text comes before every longer one
/// that begins with it.
pub proof fn law_first_difference_decides(a: Seq<char>, b: Seq<char>, at: int)
    requires
        0 <= at <= encode_utf8(a).len(),
        at < encode_utf8(b).len(),
        forall|i: int| 0 <= i < at ==> encode_utf8(a)[i] == #[trigger] encode_utf8(b)[i],
        at < encode_utf8(a).len() ==> encode_utf8(a)[at] < encode_utf8(b)[at],
    ensures
        text_before(a, b),
        !text_before(b, a),
{
    lemma_first_byte_decides(encode_utf8(a), encode_utf8(b), at);
    lemma_bytes_before_total_order(encode_utf8(a), encode_utf8(b), encode_utf8(a));
}

proof fn lemma_first_byte_decides(a: Seq<u8>, b: Seq<u8>, at: int)
    requires
        0 <= at <= a.len(),
        at < b.len(),
        forall|i: int| 0 <= i < at ==> a[i] == #[trigger] b[i],
        at < a.len() ==> a[at] < b[at],
    ensures
        bytes_before(a, b),
    decreases at,
{
    if at > 0 {
        assert(a[0] == b[0]);
        let shorter = a.drop_first();
        let other = b.drop_first();
        assert forall|i: int| 0 <= i < at - 1 implies shorter[i] == #[trigger] other[i] by {
            assert(other[i] == b[i + 1]);
        }
        lemma_first_byte_decides(shorter, other, at - 1);
    }
}

} // verus!
