//! Text helpers shared by the command handlers.
use vstd::prelude::*;
use vstd::string::*;
use vstd::utf8::*;

verus! {

/// Text as the contracts see it: a sequence of characters.
pub type Text = Seq<char>;

/// Collects the characters of `s` into a vector.
pub fn chars_of(s: &str) -> (out: Vec<char>)
    ensures
        out@ == s@,
{
    let mut out: Vec<char> = Vec::new();
    for c in it: s.chars()
        invariant
            out@ == it.seq().take(it.index() as int),
            it.seq() == s@,
    {
        out.push(c);
    }
    out
}

/// Whether two string slices hold the same text.
pub fn same_text(a: &str, b: &str) -> (same: bool)
    ensures
        same == (a@ == b@),
{
    let x = a.as_bytes();
    let y = b.as_bytes();
    proof {
        encode_utf8_decode_utf8(a@);
        encode_utf8_decode_utf8(b@);
    }
    if x.len() != y.len() {
        return false;
    }
    let mut i: usize = 0;
    while i < x.len()
        invariant
            i <= x.len(),
            x.len() == y.len(),
            forall|j: int| 0 <= j < i ==> x@[j] == y@[j],
            x@ == encode_utf8(a@),
            y@ == encode_utf8(b@),
            decode_utf8(encode_utf8(a@)) == a@,
            decode_utf8(encode_utf8(b@)) == b@,
        decreases x.len() - i,
    {
        if x[i] != y[i] {
            return false;
        }
        i += 1;
    }
    assert(x@ =~= y@);
    true
}

/// The stored unit of every keyspace: one text.
pub struct RedisValue {
    pub text: String,
}

impl View for RedisValue {
    type V = Text;

    open spec fn view(&self) -> Text {
        self.text@
    }
}

impl DeepView for RedisValue {
    type V = Text;

    open spec fn deep_view(&self) -> Text {
        self.text@
    }
}

/// The two ways in which a value is shown.
#[derive(Clone, Copy, Debug, PartialEq, Eq)]
pub enum Rendering {
    /// The bare text: a value that is the whole reply.
    Raw,
    /// The text between double quotes: a value inside an aggregate, or one
    /// looked up by its index.
    Quoted,
}

/// A text as shown in the given way.
pub open spec fn rendered(text: Text, mode: Rendering) -> Text {
    match mode {
        Rendering::Raw => text,
        Rendering::Quoted => quoted(text),
    }
}

impl Clone for RedisValue {
    fn clone(&self) -> (copy: Self)
        ensures
            copy == *self,
    {
        RedisValue { text: self.text.clone() }
    }
}

impl RedisValue {
    /// The value that holds the given text.
    pub fn from_str(s: &str) -> (value: Self)
        ensures
            value@ == s@,
    {
        RedisValue { text: s.to_owned() }
    }

    /// The text of the value.
    pub fn as_str(&self) -> (s: &str)
        ensures
            s@ == self@,
    {
        self.text.as_str()
    }

    /// Shows the value in the given way.
    pub fn render(&self, mode: Rendering) -> (out: String)
        ensures
            out@ == rendered(self@, mode),
    {
        match mode {
            Rendering::Raw => self.text.clone(),
            Rendering::Quoted => quote(self.text.as_str()),
        }
    }

    /// The bare text of the value.
    pub fn to_string(&self) -> (out: String)
        ensures
            out@ == self@,
    {
        self.render(Rendering::Raw)
    }
}

/// Position of the first space of `s`, or `s.len()` where it holds none.
pub open spec fn first_space(s: Text) -> int
    decreases s.len(),
{
    if s.len() == 0 || s[0] == ' ' {
        0
    } else {
        1 + first_space(s.skip(1))
    }
}

/// The words of a line: the pieces between single spaces. Two spaces in a row
/// enclose an empty word, and a line without a space is one word.
pub open spec fn split_on_space(s: Text) -> Seq<Text>
    decreases s.len(),
{
    let i = first_space(s);
    if 0 <= i < s.len() {
        seq![s.take(i)] + split_on_space(s.skip(i + 1))
    } else {
        seq![s]
    }
}

/// A line has at least one word.
pub proof fn lemma_split_nonempty(s: Text)
    ensures
        split_on_space(s).len() >= 1,
{
}

/// `first_space` is the one position before which no space stands and at
/// which a space, or the end, stands.
pub proof fn lemma_first_space(s: Text, k: int)
    requires
        0 <= k <= s.len(),
        forall|j: int| 0 <= j < k ==> s[j] != ' ',
        k == s.len() || s[k] == ' ',
    ensures
        first_space(s) == k,
    decreases s.len(),
{
    if s.len() == 0 || s[0] == ' ' {
    } else {
        let t = s.skip(1);
        assert forall|j: int| 0 <= j < k - 1 implies t[j] != ' ' by {
            assert(t[j] == s[j + 1]);
        }
        lemma_first_space(t, k - 1);
    }
}

/// Whether a text holds no space.
pub open spec fn space_free(s: Text) -> bool {
    forall|i: int| 0 <= i < s.len() ==> s[i] != ' '
}

/// The line that the words make: the words with one space between each two.
pub open spec fn join_words(words: Seq<Text>) -> Text
    decreases words.len(),
{
    if words.len() == 0 {
        Seq::empty()
    } else if words.len() == 1 {
        words[0]
    } else {
        words[0] + seq![' '] + join_words(words.skip(1))
    }
}

/// Splitting gives back the words that a line was made of, where no word
/// holds a space.
pub proof fn lemma_split_of_join(words: Seq<Text>)
    requires
        words.len() >= 1,
        forall|i: int| 0 <= i < words.len() ==> space_free(#[trigger] words[i]),
    ensures
        split_on_space(join_words(words)) == words,
    decreases words.len(),
{
    let first = words[0];
    if words.len() == 1 {
        lemma_first_space(first, first.len() as int);
        assert(seq![first] =~= words);
    } else {
        let rest = words.skip(1);
        let line = join_words(words);
        assert forall|i: int| 0 <= i < rest.len() implies space_free(#[trigger] rest[i]) by {
            assert(rest[i] == words[i + 1]);
        }
        lemma_split_of_join(rest);
        assert forall|j: int| 0 <= j < first.len() implies line[j] != ' ' by {
            assert(line[j] == first[j]);
        }
        lemma_first_space(line, first.len() as int);
        assert(line.take(first.len() as int) =~= first);
        assert(line.skip(first.len() as int + 1) =~= join_words(rest));
        assert(seq![first] + rest =~= words);
    }
}

/// Splits a line at every single space.
pub fn split_words<'a>(line: &'a str) -> (words: Vec<&'a str>)
    ensures
        words.deep_view() == split_on_space(line@),
{
    let chars = chars_of(line);
    let n = chars.len();
    let mut words: Vec<&'a str> = Vec::new();
    let mut start: usize = 0;
    let mut i: usize = 0;
    assert(line@.skip(0) =~= line@);
    assert(words.deep_view() =~= Seq::<Text>::empty());
    while i < n
        invariant
            start <= i <= n,
            n == chars.len(),
            chars@ == line@,
            forall|j: int| start <= j < i ==> chars@[j] != ' ',
            words.deep_view() + split_on_space(line@.skip(start as int)) == split_on_space(line@),
        decreases n - i,
    {
        if chars[i] == ' ' {
            let piece = line.substring_char(start, i);
            let ghost before = words.deep_view();
            let ghost rest = line@.skip(start as int);
            proof {
                lemma_first_space(rest, i - start);
                assert(rest.take(i - start) =~= piece@);
                assert(rest.skip(i - start + 1) =~= line@.skip(i + 1));
            }
            words.push(piece);
            assert(words.deep_view() =~= before.push(piece@));
            assert(before.push(piece@) + split_on_space(line@.skip(i + 1)) =~= before
                + split_on_space(rest));
            start = i + 1;
        }
        i += 1;
    }
    let piece = line.substring_char(start, n);
    let ghost before = words.deep_view();
    proof {
        let rest = line@.skip(start as int);
        lemma_first_space(rest, n - start);
        assert(rest =~= piece@);
    }
    words.push(piece);
    assert(words.deep_view() =~= before.push(piece@));
    words
}

/// Whether `c` is one of the ten decimal digits.
pub open spec fn is_digit(c: char) -> bool {
    '0' <= c <= '9'
}

/// The number that a decimal digit stands for.
pub open spec fn digit_value(c: char) -> nat {
    (c as u32 - '0' as u32) as nat
}

/// Whether every character of `s` is a decimal digit.
pub open spec fn all_digits(s: Text) -> bool {
    forall|i: int| 0 <= i < s.len() ==> is_digit(#[trigger] s[i])
}

/// The number that a run of decimal digits writes, most significant first.
pub open spec fn digits_value(s: Text) -> nat
    decreases s.len(),
{
    if s.len() == 0 {
        0
    } else {
        digits_value(s.drop_last()) * 10 + digit_value(s.last())
    }
}

/// A natural number in decimal: an optional `+`, then at least one digit.
pub open spec fn parse_nat(s: Text) -> Option<nat> {
    let body = if s.len() > 0 && s[0] == '+' {
        s.skip(1)
    } else {
        s
    };
    if body.len() > 0 && all_digits(body) {
        Some(digits_value(body))
    } else {
        None
    }
}

/// An integer in decimal: an optional sign, then at least one digit.
pub open spec fn parse_int(s: Text) -> Option<int> {
    if s.len() > 0 && s[0] == '-' {
        let body = s.skip(1);
        if body.len() > 0 && all_digits(body) {
            Some(-(digits_value(body) as int))
        } else {
            None
        }
    } else {
        match parse_nat(s) {
            Some(n) => Some(n as int),
            None => None,
        }
    }
}

/// What `parse_i32` returns: the integer that `s` writes, where it fits.
pub open spec fn parse_i32_spec(s: Text) -> Option<i32> {
    match parse_int(s) {
        Some(v) => if i32::MIN <= v <= i32::MAX {
            Some(v as i32)
        } else {
            None
        },
        None => None,
    }
}

/// What `parse_usize` returns: the natural number that `s` writes, where it fits.
pub open spec fn parse_usize_spec(s: Text) -> Option<usize> {
    match parse_nat(s) {
        Some(v) => if v <= usize::MAX {
            Some(v as usize)
        } else {
            None
        },
        None => None,
    }
}

/// A longer run of digits never writes a smaller number than its beginning.
pub proof fn lemma_digits_value_grows(s: Text, k: int)
    requires
        0 <= k <= s.len(),
    ensures
        digits_value(s.take(k)) <= digits_value(s),
    decreases s.len(),
{
    if k == s.len() {
        assert(s.take(k) =~= s);
    } else {
        assert(s.drop_last().take(k) =~= s.take(k));
        lemma_digits_value_grows(s.drop_last(), k);
    }
}

/// Reads the digits of `chars` from position `from` on, up to `limit`.
fn parse_magnitude(chars: &Vec<char>, from: usize, limit: u64) -> (out: Option<u64>)
    requires
        from <= chars.len(),
    ensures
        out == ({
            let body = chars@.skip(from as int);
            if body.len() > 0 && all_digits(body) && digits_value(body) <= limit {
                Some(digits_value(body) as u64)
            } else {
                None::<u64>
            }
        }),
{
    let n = chars.len();
    let ghost body = chars@.skip(from as int);
    if from == n {
        return None;
    }
    let mut acc: u128 = 0;
    let mut i: usize = from;
    assert(body.take(0) =~= Seq::<char>::empty());
    while i < n
        invariant
            from <= i <= n,
            n == chars.len(),
            body == chars@.skip(from as int),
            all_digits(body.take(i - from)),
            acc == digits_value(body.take(i - from)),
            acc <= limit,
        decreases n - i,
    {
        let c = chars[i];
        let ghost next = body.take(i - from + 1);
        proof {
            assert(body[i - from] == c);
            assert(next.drop_last() =~= body.take(i - from));
            assert(next.last() == c);
        }
        if c < '0' || c > '9' {
            assert(!is_digit(body[i - from]));
            return None;
        }
        let d: u128 = (c as u32 - '0' as u32) as u128;
        acc = acc * 10 + d;
        proof {
            assert forall|j: int| 0 <= j < next.len() implies is_digit(#[trigger] next[j]) by {
                if j < i - from {
                    assert(next[j] == body.take(i - from)[j]);
                }
            }
        }
        if acc > limit as u128 {
            proof {
                lemma_digits_value_grows(body, i - from + 1);
            }
            return None;
        }
        i += 1;
    }
    assert(body.take(n - from) =~= body);
    Some(acc as u64)
}

/// Reads a decimal integer that fits in an `i32`.
pub fn parse_i32(s: &str) -> (out: Option<i32>)
    ensures
        out == parse_i32_spec(s@),
{
    let chars = chars_of(s);
    if chars.len() > 0 && chars[0] == '-' {
        match parse_magnitude(&chars, 1, 2147483648) {
            Some(m) => Some((0 - m as i64) as i32),
            None => None,
        }
    } else {
        let from: usize = if chars.len() > 0 && chars[0] == '+' {
            1
        } else {
            0
        };
        assert(chars@.skip(0) =~= chars@);
        match parse_magnitude(&chars, from, 2147483647) {
            Some(m) => Some(m as i32),
            None => None,
        }
    }
}

/// Reads a decimal natural number that fits in a `usize`.
pub fn parse_usize(s: &str) -> (out: Option<usize>)
    ensures
        out == parse_usize_spec(s@),
{
    let chars = chars_of(s);
    let from: usize = if chars.len() > 0 && chars[0] == '+' {
        1
    } else {
        0
    };
    assert(chars@.skip(0) =~= chars@);
    match parse_magnitude(&chars, from, usize::MAX as u64) {
        Some(m) => Some(m as usize),
        None => None,
    }
}

/// The character that writes a digit below ten.
pub open spec fn digit_char(d: nat) -> char {
    if d == 0 {
        '0'
    } else if d == 1 {
        '1'
    } else if d == 2 {
        '2'
    } else if d == 3 {
        '3'
    } else if d == 4 {
        '4'
    } else if d == 5 {
        '5'
    } else if d == 6 {
        '6'
    } else if d == 7 {
        '7'
    } else if d == 8 {
        '8'
    } else {
        '9'
    }
}

/// A natural number written in decimal, without sign or leading zeros.
pub open spec fn decimal(n: nat) -> Text
    decreases n,
{
    if n < 10 {
        seq![digit_char(n)]
    } else {
        decimal(n / 10).push(digit_char(n % 10))
    }
}

/// A number written in decimal reads back as the number: the text holds
/// digits alone, at least one, and they write the number.
pub proof fn law_decimal_reads_back(n: nat)
    ensures
        decimal(n).len() >= 1,
        all_digits(decimal(n)),
        digits_value(decimal(n)) == n,
        parse_nat(decimal(n)) == Some(n),
    decreases n,
{
    let text = decimal(n);
    if n < 10 {
        assert(text.drop_last() =~= Seq::<char>::empty());
        reveal_with_fuel(digits_value, 2);
    } else {
        law_decimal_reads_back(n / 10);
        assert(text.drop_last() =~= decimal(n / 10));
        assert(text.last() == digit_char(n % 10));
        assert forall|i: int| 0 <= i < text.len() implies is_digit(#[trigger] text[i]) by {
            if i < text.len() - 1 {
                assert(text[i] == decimal(n / 10)[i]);
            }
        }
    }
    assert(is_digit(text[0]));
}

/// The one-character text of a digit.
fn digit_str(d: usize) -> (s: &'static str)
    requires
        d < 10,
    ensures
        s@ == seq![digit_char(d as nat)],
{
    proof {
        reveal_strlit("0");
        reveal_strlit("1");
        reveal_strlit("2");
        reveal_strlit("3");
        reveal_strlit("4");
        reveal_strlit("5");
        reveal_strlit("6");
        reveal_strlit("7");
        reveal_strlit("8");
        reveal_strlit("9");
    }
    let s = if d == 0 {
        "0"
    } else if d == 1 {
        "1"
    } else if d == 2 {
        "2"
    } else if d == 3 {
        "3"
    } else if d == 4 {
        "4"
    } else if d == 5 {
        "5"
    } else if d == 6 {
        "6"
    } else if d == 7 {
        "7"
    } else if d == 8 {
        "8"
    } else {
        "9"
    };
    assert(s@ =~= seq![digit_char(d as nat)]);
    s
}

/// Writes a count in decimal.
pub fn decimal_text(n: usize) -> (s: String)
    ensures
        s@ == decimal(n as nat),
    decreases n,
{
    if n < 10 {
        digit_str(n).to_owned()
    } else {
        let mut s = decimal_text(n / 10);
        let d = digit_str(n % 10);
        s.append(d);
        assert(s@ =~= decimal((n / 10) as nat).push(digit_char((n % 10) as nat)));
        s
    }
}

/// The text between double quotes.
pub open spec fn quoted(s: Text) -> Text {
    seq!['"'] + s + seq!['"']
}

/// The quoted items, separated by a comma and a space.
pub open spec fn join_quoted(items: Seq<Text>) -> Text
    decreases items.len(),
{
    if items.len() == 0 {
        Seq::empty()
    } else if items.len() == 1 {
        quoted(items[0])
    } else {
        join_quoted(items.drop_last()) + seq![',', ' '] + quoted(items.last())
    }
}

/// How several values are shown together: quoted, separated by a comma and
/// a space, between square brackets.
pub open spec fn aggregate(items: Seq<Text>) -> Text {
    seq!['['] + join_quoted(items) + seq![']']
}

/// Puts double quotes around a text.
pub fn quote(s: &str) -> (out: String)
    ensures
        out@ == quoted(s@),
{
    proof {
        reveal_strlit("\"");
    }
    let mut out = "\"".to_owned();
    out.append(s);
    out.append("\"");
    assert(out@ =~= quoted(s@));
    out
}

/// Shows several values together.
pub fn render_aggregate(items: &Vec<RedisValue>) -> (out: String)
    ensures
        out@ == aggregate(items.deep_view()),
{
    proof {
        reveal_strlit("[");
        reveal_strlit("]");
        reveal_strlit(", ");
    }
    let ghost texts = items.deep_view();
    let mut out = "[".to_owned();
    let mut i: usize = 0;
    assert(texts.take(0) =~= Seq::<Text>::empty());
    while i < items.len()
        invariant
            i <= items.len(),
            texts == items.deep_view(),
            out@ == seq!['['] + join_quoted(texts.take(i as int)),
            ", "@ == seq![',', ' '],
        decreases items.len() - i,
    {
        let ghost before = texts.take(i as int);
        let ghost after = texts.take(i + 1);
        proof {
            assert(after.drop_last() =~= before);
            assert(after.last() == items[i as int]@);
            assert(items[i as int].deep_view() == items[i as int]@);
        }
        if i > 0 {
            out.append(", ");
        }
        let q = items[i].render(Rendering::Quoted);
        out.append(q.as_str());
        assert(out@ =~= seq!['['] + join_quoted(after));
        i += 1;
    }
    assert(texts.take(items.len() as int) =~= texts);
    out.append("]");
    out
}

} // verus!
