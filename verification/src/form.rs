//! Decoding of the `application/x-www-form-urlencoded` bodies that the
//! settings page posts.

use vstd::prelude::*;

use crate::text::push_char;

verus! {

/// Whether a byte is an ASCII hexadecimal digit (either case).
pub open spec fn is_hex_byte(b: u8) -> bool {
    (48 <= b <= 57) || (65 <= b <= 70) || (97 <= b <= 102)
}

/// The value of an ASCII hexadecimal digit.
pub open spec fn hex_value(b: u8) -> int {
    if b <= 57 {
        b - 48
    } else if b <= 70 {
        b - 55
    } else {
        b - 87
    }
}

/// Percent-decoding of bytes: every `%` followed by two hexadecimal digits
/// becomes the byte they spell; every other byte, a lone `%` included, is kept.
pub open spec fn percent_decoded(b: Seq<u8>) -> Seq<u8>
    decreases b.len(),
{
    if b.len() == 0 {
        Seq::empty()
    } else if b[0] == 37 && b.len() >= 3 && is_hex_byte(b[1]) && is_hex_byte(b[2]) {
        seq![(hex_value(b[1]) * 16 + hex_value(b[2])) as u8] + percent_decoded(b.skip(3))
    } else {
        seq![b[0]] + percent_decoded(b.skip(1))
    }
}

/// The text `percent_encoding::percent_decode_str(s).decode_utf8_lossy()`
/// gives for `s`.
pub uninterp spec fn percent_decode_lossy(s: Seq<char>) -> Seq<char>;

/// Percent-decodes `s` and reads the bytes as UTF-8, with
/// `percent_encoding::percent_decode_str(s).decode_utf8_lossy()`. Trusted:
/// the result is named by `percent_decode_lossy`, and where the bytes of `s`
/// decoded as `percent_decoded` says (each `%` followed by two hex digits
/// becomes the byte they spell, every other byte is kept, as the crate's
/// documentation and source show) are valid UTF-8, it is their text. How
/// invalid sequences are replaced (with U+FFFD) is left unsaid.
#[verifier::external_body]
fn percent_decode_text(s: &str) -> (r: String)
    ensures
        r@ == percent_decode_lossy(s@),
        vstd::utf8::valid_utf8(percent_decoded(vstd::utf8::encode_utf8(s@))) ==> r@ == vstd::utf8::decode_utf8(
            percent_decoded(vstd::utf8::encode_utf8(s@)),
        ),
{
    percent_encoding::percent_decode_str(s).decode_utf8_lossy().into_owned()
}

/// `s` with every `+` read as a space.
pub open spec fn plus_as_space(s: Seq<char>) -> Seq<char> {
    s.map_values(|c: char| if c == '+' { ' ' } else { c })
}

/// The bytes of one form component after `+` is read as a space and the
/// escapes are decoded.
pub open spec fn component_bytes(s: Seq<char>) -> Seq<u8> {
    percent_decoded(vstd::utf8::encode_utf8(plus_as_space(s)))
}

/// The decoded text of one form component: the text of its bytes where they
/// are valid UTF-8, otherwise what the lossy decoding gives.
pub open spec fn url_decode_spec(s: Seq<char>) -> Seq<char> {
    if vstd::utf8::valid_utf8(component_bytes(s)) {
        vstd::utf8::decode_utf8(component_bytes(s))
    } else {
        percent_decode_lossy(plus_as_space(s))
    }
}

/// Decodes one form component: `+` becomes a space, then `%XX` escapes are
/// decoded and the bytes read as UTF-8 (invalid sequences replaced).
pub fn url_decode(s: &str) -> (r: String)
    ensures
        r@ == url_decode_spec(s@),
{
    let n = s.unicode_len();
    let mut spaced = String::new();
    let mut i: usize = 0;
    while i < n
        invariant
            n == s@.len(),
            i <= n,
            spaced@ == plus_as_space(s@.take(i as int)),
        decreases n - i,
    {
        let c = s.get_char(i);
        if c == '+' {
            push_char(&mut spaced, ' ');
        } else {
            push_char(&mut spaced, c);
        }
        assert(spaced@ =~= plus_as_space(s@.take(i + 1)));
        i = i + 1;
    }
    assert(s@.take(n as int) =~= s@);
    percent_decode_text(spaced.as_str())
}

proof fn lemma_scalar_bytes_not_percent(c: char)
    requires
        c != '%',
    ensures
        !vstd::utf8::encode_scalar(c as u32).contains(37u8),
{
    let v = c as u32;
    assert(v != 37u32);
    assert(v <= 0x7F ==> (v & 0x7Fu32) as u8 != 37u8) by (bit_vector)
        requires
            v != 37u32,
    ;
    assert((0xC0u8 | ((v >> 6u32) & 0x1Fu32) as u8) != 37u8) by (bit_vector);
    assert((0xE0u8 | ((v >> 12u32) & 0x0Fu32) as u8) != 37u8) by (bit_vector);
    assert((0xF0u8 | ((v >> 18u32) & 0x7u32) as u8) != 37u8) by (bit_vector);
    assert((0x80u8 | (v & 0x3Fu32) as u8) != 37u8) by (bit_vector);
    assert((0x80u8 | ((v >> 6u32) & 0x3Fu32) as u8) != 37u8) by (bit_vector);
    assert((0x80u8 | ((v >> 12u32) & 0x3Fu32) as u8) != 37u8) by (bit_vector);
}

proof fn lemma_encode_no_percent(s: Seq<char>)
    requires
        forall|i: int| 0 <= i < s.len() ==> s[i] != '%',
    ensures
        !vstd::utf8::encode_utf8(s).contains(37u8),
    decreases s.len(),
{
    if s.len() > 0 {
        lemma_scalar_bytes_not_percent(s[0]);
        lemma_encode_no_percent(s.drop_first());
        let a = vstd::utf8::encode_scalar(s[0] as u32);
        let b = vstd::utf8::encode_utf8(s.drop_first());
        assert forall|j: int| 0 <= j < (a + b).len() implies (a + b)[j] != 37u8 by {
            if j >= a.len() {
                assert((a + b)[j] == b[j - a.len()]);
            } else {
                assert((a + b)[j] == a[j]);
            }
        }
    }
}

proof fn lemma_percent_decoded_plain(b: Seq<u8>)
    requires
        !b.contains(37u8),
    ensures
        percent_decoded(b) == b,
    decreases b.len(),
{
    if b.len() > 0 {
        assert(b[0] != 37u8);
        assert(!b.skip(1).contains(37u8)) by {
            if b.skip(1).contains(37u8) {
                let j = choose|j: int| 0 <= j < b.skip(1).len() && b.skip(1)[j] == 37u8;
                assert(b[j + 1] == 37u8);
            }
        }
        lemma_percent_decoded_plain(b.skip(1));
        assert(seq![b[0]] + b.skip(1) =~= b);
    }
}

/// A form component without `%` escapes decodes to itself with every `+`
/// read as a space.
pub proof fn lemma_unescaped_component(s: Seq<char>)
    requires
        forall|i: int| 0 <= i < s.len() ==> s[i] != '%',
    ensures
        url_decode_spec(s) == plus_as_space(s),
{
    let t = plus_as_space(s);
    assert forall|i: int| 0 <= i < t.len() implies t[i] != '%' by {
        assert(s[i] != '%');
    }
    lemma_encode_no_percent(t);
    lemma_percent_decoded_plain(vstd::utf8::encode_utf8(t));
    vstd::utf8::encode_utf8_valid_utf8(t);
    vstd::utf8::encode_utf8_decode_utf8(t);
}

/// `s` split at every occurrence of `sep`, like `str::split`: there is always
/// at least one piece, and empty pieces are kept.
pub open spec fn split_on(s: Seq<char>, sep: char) -> Seq<Seq<char>>
    decreases s.len(),
{
    if s.len() == 0 {
        seq![Seq::<char>::empty()]
    } else {
        let p = split_on(s.drop_last(), sep);
        if s.last() == sep {
            p.push(Seq::<char>::empty())
        } else {
            p.update(p.len() - 1, p.last().push(s.last()))
        }
    }
}

/// Index of the first `c` in `s`, or `s.len()` when there is none.
pub open spec fn first_index(s: Seq<char>, c: char) -> int
    decreases s.len(),
{
    if s.len() == 0 {
        0
    } else {
        let f = first_index(s.drop_last(), c);
        if f < s.len() - 1 {
            f
        } else if s.last() == c {
            s.len() - 1
        } else {
            s.len() as int
        }
    }
}

/// The parameters after the pieces `pieces` of a body are read in order: a
/// piece `k=v` (split at its first `=`) sets decoded `k` to decoded `v`; a
/// non-empty piece without `=` sets it to the empty string; a later setting of
/// the same name wins.
pub open spec fn form_fold(pieces: Seq<Seq<char>>) -> Map<Seq<char>, Seq<char>>
    decreases pieces.len(),
{
    if pieces.len() == 0 {
        Map::empty()
    } else {
        apply_piece_spec(form_fold(pieces.drop_last()), pieces.last())
    }
}

/// What one piece `p` of a body does to the parameters `m`.
pub open spec fn apply_piece_spec(m: Map<Seq<char>, Seq<char>>, p: Seq<char>) -> Map<
    Seq<char>,
    Seq<char>,
> {
    let f = first_index(p, '=');
    if f < p.len() {
        m.insert(url_decode_spec(p.take(f)), url_decode_spec(p.skip(f + 1)))
    } else if p.len() > 0 {
        m.insert(url_decode_spec(p), Seq::empty())
    } else {
        m
    }
}

/// The parameters of a form body.
pub open spec fn form_spec(body: Seq<char>) -> Map<Seq<char>, Seq<char>> {
    form_fold(split_on(body, '&'))
}

/// The decoded parameters of a form, by name. Names are distinct.
pub struct FormParams {
    entries: Vec<(String, String)>,
}

/// The map that a list of (name, value) pairs sets, later pairs winning.
pub open spec fn pairs_map(es: Seq<(Seq<char>, Seq<char>)>) -> Map<Seq<char>, Seq<char>>
    decreases es.len(),
{
    if es.len() == 0 {
        Map::empty()
    } else {
        pairs_map(es.drop_last()).insert(es.last().0, es.last().1)
    }
}

proof fn lemma_pairs_map_lookup(es: Seq<(Seq<char>, Seq<char>)>, k: Seq<char>)
    requires
        forall|i: int, j: int| 0 <= i < j < es.len() ==> es[i].0 != es[j].0,
    ensures
        pairs_map(es).contains_key(k) <==> exists|i: int| 0 <= i < es.len() && es[i].0 == k,
        forall|i: int| 0 <= i < es.len() && es[i].0 == k ==> pairs_map(es)[k] == es[i].1,
    decreases es.len(),
{
    if es.len() > 0 {
        let p = es.drop_last();
        lemma_pairs_map_lookup(p, k);
        if pairs_map(es).contains_key(k) && es.last().0 != k {
            let i = choose|i: int| 0 <= i < p.len() && p[i].0 == k;
            assert(es[i].0 == k);
        }
        if exists|i: int| 0 <= i < es.len() && es[i].0 == k {
            let i = choose|i: int| 0 <= i < es.len() && es[i].0 == k;
            if i < es.len() - 1 {
                assert(p[i].0 == k);
            }
        }
        assert forall|i: int| 0 <= i < es.len() && es[i].0 == k implies pairs_map(es)[k]
            == es[i].1 by {
            if i < es.len() - 1 {
                assert(p[i] == es[i]);
            }
        }
    }
}

impl FormParams {
    spec fn pairs(&self) -> Seq<(Seq<char>, Seq<char>)> {
        self.entries@.map_values(|e: (String, String)| (e.0@, e.1@))
    }

    /// The parameters as a map from decoded name to decoded value.
    pub closed spec fn params(&self) -> Map<Seq<char>, Seq<char>> {
        pairs_map(self.pairs())
    }

    /// No name occurs twice.
    pub closed spec fn wf(&self) -> bool {
        forall|i: int, j: int|
            0 <= i < j < self.entries@.len() ==> self.entries@[i].0@ != self.entries@[j].0@
    }

    /// No parameters.
    pub fn new() -> (p: FormParams)
        ensures
            p.wf(),
            p.params() == Map::<Seq<char>, Seq<char>>::empty(),
    {
        let p = FormParams { entries: Vec::new() };
        assert(p.pairs() =~= Seq::<(Seq<char>, Seq<char>)>::empty());
        p
    }

    fn find(&self, name: &str) -> (r: Option<usize>)
        requires
            self.wf(),
        ensures
            r matches Some(i) ==> i < self.entries@.len() && self.entries@[i as int].0@ == name@,
            r is None ==> forall|i: int| 0 <= i < self.entries@.len() ==> self.entries@[i].0@ != name@,
    {
        let mut i: usize = 0;
        while i < self.entries.len()
            invariant
                i <= self.entries@.len(),
                forall|j: int| 0 <= j < i ==> self.entries@[j].0@ != name@,
            decreases self.entries@.len() - i,
        {
            if crate::text::str_eq(self.entries[i].0.as_str(), name) {
                return Some(i);
            }
            i = i + 1;
        }
        None
    }

    /// Sets `name` to `value`, replacing an earlier value.
    pub fn insert(&mut self, name: String, value: String)
        requires
            old(self).wf(),
        ensures
            final(self).wf(),
            final(self).params() == old(self).params().insert(name@, value@),
    {
        let ghost before = self.pairs();
        proof {
            assert forall|i: int, j: int| 0 <= i < j < before.len() implies before[i].0 != before[j].0 by {
                assert(before[i].0 == self.entries@[i].0@ && before[j].0 == self.entries@[j].0@);
            }
            lemma_pairs_map_lookup(before, name@);
        }
        match self.find(name.as_str()) {
            Some(i) => {
                self.entries.set(i, (name, value));
                proof {
                    assert(self.pairs() =~= before.update(i as int, (name@, value@)));
                    assert forall|a: int, b: int| 0 <= a < b < self.pairs().len() implies self.pairs()[a].0
                        != self.pairs()[b].0 by {
                        assert(self.pairs()[a].0 == if a == i { name@ } else { before[a].0 });
                        assert(self.pairs()[b].0 == if b == i { name@ } else { before[b].0 });
                    }
                    assert(self.params() =~= old(self).params().insert(name@, value@)) by {
                        assert forall|k: Seq<char>| #[trigger] self.params().contains_key(k) <==> old(
                            self,
                        ).params().insert(name@, value@).contains_key(k) by {
                            lemma_pairs_map_lookup(before, k);
                            lemma_pairs_map_lookup(self.pairs(), k);
                            if k == name@ {
                                assert(self.pairs()[i as int].0 == k);
                            }
                            if old(self).params().insert(name@, value@).contains_key(k) && k != name@ {
                                let j = choose|j: int| 0 <= j < before.len() && before[j].0 == k;
                                assert(self.pairs()[j].0 == k);
                            }
                            if self.params().contains_key(k) && k != name@ {
                                let j = choose|j: int| 0 <= j < self.pairs().len() && self.pairs()[j].0 == k;
                                assert(before[j].0 == k);
                            }
                        }
                        assert forall|k: Seq<char>| #[trigger] self.params().contains_key(k) implies self.params()[k]
                            == old(self).params().insert(name@, value@)[k] by {
                            lemma_pairs_map_lookup(before, k);
                            lemma_pairs_map_lookup(self.pairs(), k);
                            if k == name@ {
                                assert(self.pairs()[i as int] == (name@, value@));
                            } else {
                                let j = choose|j: int| 0 <= j < self.pairs().len() && self.pairs()[j].0 == k;
                                assert(before[j] == self.pairs()[j]);
                            }
                        }
                    }
                }
            },
            None => {
                self.entries.push((name, value));
                proof {
                    assert(self.pairs() =~= before.push((name@, value@)));
                    assert(self.pairs().drop_last() =~= before);
                }
            },
        }
    }

    /// The value of `name`, if set.
    pub fn get(&self, name: &str) -> (r: Option<&String>)
        requires
            self.wf(),
        ensures
            r is Some <==> self.params().contains_key(name@),
            r matches Some(v) ==> v@ == self.params()[name@],
    {
        proof {
            lemma_pairs_map_lookup(self.pairs(), name@);
        }
        match self.find(name) {
            Some(i) => {
                assert(self.pairs()[i as int].0 == name@);
                Some(&self.entries[i].1)
            },
            None => {
                assert forall|i: int| 0 <= i < self.pairs().len() implies self.pairs()[i].0 != name@ by {
                    assert(self.pairs()[i].0 == self.entries@[i].0@);
                }
                None
            },
        }
    }

    /// Whether `name` is set.
    pub fn contains_key(&self, name: &str) -> (r: bool)
        requires
            self.wf(),
        ensures
            r == self.params().contains_key(name@),
    {
        self.get(name).is_some()
    }
}

proof fn lemma_first_index_settled(s: Seq<char>, c: char, j: int)
    requires
        0 <= j <= s.len(),
        first_index(s.take(j), c) < j,
    ensures
        first_index(s, c) == first_index(s.take(j), c),
    decreases s.len() - j,
{
    if j < s.len() {
        assert(s.take(j + 1).drop_last() =~= s.take(j));
        lemma_first_index_settled(s, c, j + 1);
    } else {
        assert(s.take(j) =~= s);
    }
}

/// Index of the first `c` in `s`, or its length when there is none.
pub(crate) fn find_char(s: &str, c: char) -> (r: usize)
    ensures
        r == first_index(s@, c),
        r <= s@.len(),
{
    let n = s.unicode_len();
    let mut i: usize = 0;
    while i < n
        invariant
            n == s@.len(),
            i <= n,
            first_index(s@.take(i as int), c) == i,
        decreases n - i,
    {
        assert(s@.take(i + 1).drop_last() =~= s@.take(i as int));
        if s.get_char(i) == c {
            proof {
                lemma_first_index_settled(s@, c, i + 1);
            }
            return i;
        }
        i = i + 1;
    }
    assert(s@.take(n as int) =~= s@);
    n
}

fn apply_piece(params: &mut FormParams, piece: &str)
    requires
        old(params).wf(),
    ensures
        final(params).wf(),
        final(params).params() == apply_piece_spec(old(params).params(), piece@),
{
    let n = piece.unicode_len();
    let f = find_char(piece, '=');
    if f < n {
        let k = url_decode(piece.substring_char(0, f));
        let v = url_decode(piece.substring_char(f + 1, n));
        assert(piece@.subrange(0, f as int) =~= piece@.take(f as int));
        assert(piece@.subrange(f + 1, n as int) =~= piece@.skip(f + 1));
        params.insert(k, v);
    } else if n > 0 {
        let k = url_decode(piece);
        params.insert(k, String::new());
    }
}

pub(crate) proof fn lemma_split_step(s: Seq<char>, sep: char, i: int)
    requires
        0 <= i < s.len(),
    ensures
        split_on(s.take(i + 1), sep) == if s[i] == sep {
            split_on(s.take(i), sep).push(Seq::<char>::empty())
        } else {
            let p = split_on(s.take(i), sep);
            p.update(p.len() - 1, p.last().push(s[i]))
        },
{
    assert(s.take(i + 1).drop_last() =~= s.take(i));
}

/// Parses a form body: pieces are separated by `&`; a piece `k=v` (split at
/// its first `=`) sets decoded `k` to decoded `v`, a non-empty piece without
/// `=` sets it to the empty string, empty pieces are skipped, and a later
/// piece with the same name wins.
pub fn parse_form(body: &str) -> (params: FormParams)
    ensures
        params.wf(),
        params.params() == form_spec(body@),
{
    let n = body.unicode_len();
    let mut params = FormParams::new();
    let mut start: usize = 0;
    let mut i: usize = 0;
    proof {
        assert(body@.take(0) =~= Seq::<char>::empty());
        assert(split_on(body@.take(0), '&').drop_last() =~= Seq::<Seq<char>>::empty());
    }
    while i < n
        invariant
            n == body@.len(),
            start <= i <= n,
            params.wf(),
            params.params() == form_fold(split_on(body@.take(i as int), '&').drop_last()),
            split_on(body@.take(i as int), '&').len() >= 1,
            split_on(body@.take(i as int), '&').last() == body@.subrange(start as int, i as int),
        decreases n - i,
    {
        let ghost p = split_on(body@.take(i as int), '&');
        proof {
            lemma_split_step(body@, '&', i as int);
        }
        if body.get_char(i) == '&' {
            let piece = body.substring_char(start, i);
            apply_piece(&mut params, piece);
            proof {
                assert(p.drop_last().push(p.last()) =~= p);
                assert(split_on(body@.take(i + 1), '&').drop_last() =~= p);
                assert(Seq::<char>::empty() =~= body@.subrange(i + 1, i + 1));
            }
            start = i + 1;
        } else {
            proof {
                let q = split_on(body@.take(i + 1), '&');
                assert(q.drop_last() =~= p.drop_last());
                assert(q.last() =~= body@.subrange(start as int, i + 1));
            }
        }
        i = i + 1;
    }
    let piece = body.substring_char(start, n);
    let ghost p = split_on(body@.take(n as int), '&');
    apply_piece(&mut params, piece);
    proof {
        assert(body@.take(n as int) =~= body@);
        assert(p.drop_last().push(p.last()) =~= p);
    }
    params
}

proof fn lemma_split_without_sep(s: Seq<char>, sep: char)
    requires
        !s.contains(sep),
    ensures
        split_on(s, sep) == seq![s],
    decreases s.len(),
{
    if s.len() > 0 {
        let p = s.drop_last();
        assert(!p.contains(sep)) by {
            if p.contains(sep) {
                let j = choose|j: int| 0 <= j < p.len() && p[j] == sep;
                assert(s[j] == sep);
            }
        }
        lemma_split_without_sep(p, sep);
        assert(s.last() != sep) by {
            assert(s[s.len() - 1] == s.last());
        }
        assert(p.push(s.last()) =~= s);
    } else {
        assert(s =~= Seq::<char>::empty());
    }
}

proof fn lemma_first_index_absent(s: Seq<char>, c: char)
    requires
        !s.contains(c),
    ensures
        first_index(s, c) == s.len(),
    decreases s.len(),
{
    if s.len() > 0 {
        let p = s.drop_last();
        assert(!p.contains(c)) by {
            if p.contains(c) {
                let j = choose|j: int| 0 <= j < p.len() && p[j] == c;
                assert(s[j] == c);
            }
        }
        lemma_first_index_absent(p, c);
        assert(s[s.len() - 1] == s.last());
    }
}

/// A body holding a single setting `k=v` (no `&` in it, no `=` in the name)
/// sets exactly one parameter: the URL-decoded name, to the URL-decoded
/// value. So a value without `%` escapes reads back with every `+` as a
/// space, and a name without escapes likewise.
pub proof fn lemma_form_single_setting(k: Seq<char>, v: Seq<char>)
    requires
        !k.contains('&'),
        !k.contains('='),
        !v.contains('&'),
    ensures
        form_spec(k + seq!['='] + v) == Map::<Seq<char>, Seq<char>>::empty().insert(
            url_decode_spec(k),
            url_decode_spec(v),
        ),
        !v.contains('%') ==> form_spec(k + seq!['='] + v)[url_decode_spec(k)] == plus_as_space(v),
        !k.contains('%') ==> form_spec(k + seq!['='] + v).contains_key(plus_as_space(k)),
{
    let p = k + seq!['='] + v;
    assert(!p.contains('&')) by {
        if p.contains('&') {
            let j = choose|j: int| 0 <= j < p.len() && p[j] == '&';
            if j < k.len() {
                assert(k[j] == '&');
            } else if j > k.len() {
                assert(v[j - k.len() - 1] == '&');
            }
        }
    }
    lemma_split_without_sep(p, '&');
    let ps = split_on(p, '&');
    assert(ps.drop_last() =~= Seq::<Seq<char>>::empty());
    assert(form_fold(ps.drop_last()) == Map::<Seq<char>, Seq<char>>::empty());
    assert(ps.last() == p);
    assert(form_fold(ps) == apply_piece_spec(Map::empty(), p));
    lemma_first_index_absent(k, '=');
    assert(p.take(k.len() as int + 1).drop_last() =~= k);
    assert(first_index(p.take(k.len() as int + 1), '=') == k.len());
    lemma_first_index_settled(p, '=', k.len() as int + 1);
    assert(p.take(k.len() as int) =~= k);
    assert(p.skip(k.len() as int + 1) =~= v);
    if !v.contains('%') {
        assert forall|i: int| 0 <= i < v.len() implies v[i] != '%' by {
            if v[i] == '%' {
                assert(v.contains('%'));
            }
        }
        lemma_unescaped_component(v);
    }
    if !k.contains('%') {
        assert forall|i: int| 0 <= i < k.len() implies k[i] != '%' by {
            if k[i] == '%' {
                assert(k.contains('%'));
            }
        }
        lemma_unescaped_component(k);
    }
}

} // verus!
