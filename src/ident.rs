//! Identifier sanitation: turns arbitrary source names into identifiers of
//! the target language, and the identifiers' rendered form.
use heck::{CamelCase, SnakeCase};
use unicode_xid::UnicodeXID;
use vstd::prelude::*;
use vstd::string::*;

verus! {

pub open spec fn ascii_letter(c: char) -> bool {
    ('a' <= c && c <= 'z') || ('A' <= c && c <= 'Z')
}

pub open spec fn ascii_digit(c: char) -> bool {
    '0' <= c && c <= '9'
}

/// Membership of a non-ASCII character in the derived XID_Start table.
pub uninterp spec fn xid_start_table(c: char) -> bool;

/// Membership of a non-ASCII character in the derived XID_Continue table.
pub uninterp spec fn xid_continue_table(c: char) -> bool;

pub open spec fn spec_xid_start(c: char) -> bool {
    ascii_letter(c) || ('\x7f' < c && xid_start_table(c))
}

pub open spec fn spec_xid_continue(c: char) -> bool {
    ascii_letter(c) || ascii_digit(c) || c == '_' || ('\x7f' < c && xid_continue_table(c))
}

/// Relies on unicode_xid's `is_xid_start`: ASCII letters by its fast path,
/// other characters above 0x7f by its XID_Start table.
#[verifier::external_body]
fn char_xid_start(c: char) -> (r: bool)
    ensures
        r == (ascii_letter(c) || ('\x7f' < c && xid_start_table(c))),
{
    UnicodeXID::is_xid_start(c)
}

/// Relies on unicode_xid's `is_xid_continue`: ASCII letters, digits and `_`
/// by its fast path, other characters above 0x7f by its XID_Continue table.
#[verifier::external_body]
fn char_xid_continue(c: char) -> (r: bool)
    ensures
        r == (ascii_letter(c) || ascii_digit(c) || c == '_' || ('\x7f' < c
            && xid_continue_table(c))),
{
    UnicodeXID::is_xid_continue(c)
}


/// Whether syn parses a text as one identifier: keywords and the lone
/// underscore it rejects.
pub uninterp spec fn syn_accepts(s: Seq<char>) -> bool;

/// Relies on syn's `parse_str::<syn::Ident>`: whether the text parses as
/// one identifier. Its result depends on the text alone.
#[verifier::external_body]
fn ident_parses(s: &str) -> (r: bool)
    ensures
        r == syn_accepts(s@),
{
    syn::parse_str::<syn::Ident>(s).is_ok()
}

/// A character that may open an identifier.
pub open spec fn good_start(c: char) -> bool {
    spec_xid_start(c) && c != '_'
}

/// Drops the leading characters that cannot open an identifier.
pub open spec fn strip_lead(s: Seq<char>) -> Seq<char>
    decreases s.len(),
{
    if s.len() == 0 || good_start(s[0]) {
        s
    } else {
        strip_lead(s.drop_first())
    }
}

pub open spec fn fix_char(c: char) -> char {
    if spec_xid_continue(c) {
        c
    } else {
        '_'
    }
}

/// The name with its opening repaired and every later character that cannot
/// continue an identifier replaced by `_`.
pub open spec fn ident_body(s: Seq<char>) -> Seq<char> {
    let t = strip_lead(s);
    if t.len() == 0 {
        t
    } else {
        seq![t[0]] + t.drop_first().map_values(|c: char| fix_char(c))
    }
}

/// Appends `_` while syn rejects the name as an identifier, at most
/// twice; a name that syn still rejects then is kept as it is.
pub open spec fn unreserve(s: Seq<char>) -> Seq<char> {
    if syn_accepts(s) {
        s
    } else if syn_accepts(s.push('_')) {
        s.push('_')
    } else {
        s.push('_').push('_')
    }
}

/// The sanitized form of a name.
pub open spec fn sanitize(s: Seq<char>) -> Seq<char> {
    unreserve(ident_body(s))
}

/// The characters of a string, in order.
pub fn chars_of(s: &str) -> (r: Vec<char>)
    ensures
        r@ == s@,
{
    let n = s.unicode_len();
    let mut v: Vec<char> = Vec::new();
    let mut i: usize = 0;
    while i < n
        invariant
            n == s@.len(),
            i <= n,
            v@ == s@.subrange(0, i as int),
        decreases n - i,
    {
        v.push(s.get_char(i));
        i += 1;
    }
    assert(v@ =~= s@);
    v
}

/// Relies on std's `FromIterator<&char>` for `String`: the characters in order.
#[verifier::external_body]
pub(crate) fn string_of(v: &Vec<char>) -> (r: String)
    ensures
        r@ == v@,
{
    v.iter().collect()
}

proof fn lemma_strip_lead_skip(s: Seq<char>, i: int)
    requires
        0 <= i <= s.len(),
        forall|j: int| 0 <= j < i ==> !good_start(s[j]),
    ensures
        strip_lead(s) == strip_lead(s.subrange(i, s.len() as int)),
    decreases i,
{
    if i == 0 {
        assert(s.subrange(0, s.len() as int) =~= s);
    } else {
        assert(!good_start(s[0]));
        assert(s.drop_first() =~= s.subrange(1, s.len() as int));
        lemma_strip_lead_skip(s.drop_first(), i - 1);
        assert(s.drop_first().subrange(i - 1, s.drop_first().len() as int) =~= s.subrange(
            i,
            s.len() as int,
        ));
    }
}

/// The body of an identifier: leading characters that cannot open one are
/// dropped, later ones that cannot continue one become `_`.
fn body_chars(cs: &Vec<char>) -> (r: Vec<char>)
    ensures
        r@ == ident_body(cs@),
{
    let n = cs.len();
    let mut i: usize = 0;
    while i < n && !(char_xid_start(cs[i]) && cs[i] != '_')
        invariant
            n == cs@.len(),
            i <= n,
            forall|j: int| 0 <= j < i ==> !good_start(cs@[j]),
        decreases n - i,
    {
        i += 1;
    }
    proof {
        lemma_strip_lead_skip(cs@, i as int);
    }
    let ghost t = cs@.subrange(i as int, n as int);
    let mut out: Vec<char> = Vec::new();
    if i == n {
        assert(t.len() == 0);
        return out;
    }
    out.push(cs[i]);
    let mut j: usize = i + 1;
    while j < n
        invariant
            n == cs@.len(),
            i < j <= n,
            t == cs@.subrange(i as int, n as int),
            out@ == seq![t[0]] + t.drop_first().subrange(0, j - i - 1).map_values(
                |c: char| fix_char(c),
            ),
        decreases n - j,
    {
        let c = cs[j];
        let d = if char_xid_continue(c) {
            c
        } else {
            '_'
        };
        out.push(d);
        proof {
            assert(t.drop_first().subrange(0, j + 1 - i - 1) =~= t.drop_first().subrange(
                0,
                j - i - 1,
            ).push(c));
            assert(t.drop_first().subrange(0, j + 1 - i - 1).map_values(|c: char| fix_char(c))
                =~= t.drop_first().subrange(0, j - i - 1).map_values(|c: char| fix_char(c)).push(
                d,
            ));
        }
        j += 1;
    }
    assert(t.drop_first().subrange(0, n - i - 1) =~= t.drop_first());
    out
}

/// The sanitized form of a name, as characters.
fn sanitize_chars(cs: &Vec<char>) -> (r: Vec<char>)
    ensures
        r@ == sanitize(cs@),
{
    let mut out = body_chars(cs);
    if !ident_parses(string_of(&out).as_str()) {
        out.push('_');
        if !ident_parses(string_of(&out).as_str()) {
            out.push('_');
        }
    }
    out
}

/// An identifier of the target language: path segments, joined by `::`
/// when rendered, and type parameters, rendered in angle brackets.
pub struct Identifier {
    pub type_parts: Vec<String>,
    pub type_params: Vec<String>,
}

pub open spec fn strings_view(v: Seq<String>) -> Seq<Seq<char>> {
    v.map_values(|s: String| s@)
}

impl View for Identifier {
    type V = (Seq<Seq<char>>, Seq<Seq<char>>);

    open spec fn view(&self) -> (Seq<Seq<char>>, Seq<Seq<char>>) {
        (strings_view(self.type_parts@), strings_view(self.type_params@))
    }
}

/// The identifier of a single sanitized name.
pub open spec fn ident_view(s: Seq<char>) -> (Seq<Seq<char>>, Seq<Seq<char>>) {
    (seq![sanitize(s)], Seq::empty())
}

/// Sanitizes a name into an identifier of one segment.
pub fn to_ident(s: &str) -> (r: Identifier)
    ensures
        r@ == ident_view(s@),
{
    let cs = chars_of(s);
    let name = string_of(&sanitize_chars(&cs));
    let mut parts: Vec<String> = Vec::new();
    parts.push(name);
    let r = Identifier { type_parts: parts, type_params: Vec::new() };
    assert(r@.0 =~= seq![sanitize(s@)]);
    assert(r@.1 =~= Seq::<Seq<char>>::empty());
    r
}


proof fn lemma_strip_lead_opens(s: Seq<char>)
    ensures
        strip_lead(s).len() == 0 || good_start(strip_lead(s)[0]),
    decreases s.len(),
{
    if s.len() > 0 && !good_start(s[0]) {
        lemma_strip_lead_opens(s.drop_first());
    }
}

/// A well-formed body: empty, or an opening character followed by characters
/// that continue an identifier.
pub open spec fn body_shaped(b: Seq<char>) -> bool {
    b.len() == 0 || (good_start(b[0]) && forall|k: int| 1 <= k < b.len() ==> spec_xid_continue(
        b[k],
    ))
}

proof fn lemma_body_shaped(s: Seq<char>)
    ensures
        body_shaped(ident_body(s)),
{
    lemma_strip_lead_opens(s);
    let b = ident_body(s);
    let t = strip_lead(s);
    if t.len() > 0 {
        assert forall|k: int| 1 <= k < b.len() implies spec_xid_continue(b[k]) by {
            assert(b[k] == fix_char(t.drop_first()[k - 1]));
        }
    }
}

proof fn lemma_body_fixed(b: Seq<char>)
    requires
        body_shaped(b),
        b.len() > 0,
    ensures
        ident_body(b) == b,
{
    assert(strip_lead(b) == b);
    assert(b.drop_first().map_values(|c: char| fix_char(c)) =~= b.drop_first());
    assert(seq![b[0]] + b.drop_first() =~= b);
}

proof fn lemma_body_of_underscores(r: Seq<char>)
    requires
        r.len() <= 2,
        forall|k: int| 0 <= k < r.len() ==> r[k] == '_',
    ensures
        ident_body(r) =~= Seq::<char>::empty(),
{
    if r.len() == 2 {
        assert(!good_start(r[0]));
        assert(!good_start(r.drop_first()[0]));
        assert(r.drop_first().drop_first() =~= Seq::<char>::empty());
        assert(strip_lead(r.drop_first().drop_first()) =~= Seq::<char>::empty());
        assert(strip_lead(r.drop_first()) == strip_lead(r.drop_first().drop_first()));
    } else if r.len() == 1 {
        assert(!good_start(r[0]));
        assert(r.drop_first() =~= Seq::<char>::empty());
        assert(strip_lead(r.drop_first()) =~= Seq::<char>::empty());
    }
    assert(strip_lead(r) =~= Seq::<char>::empty());
}

/// Sanitizing a sanitized name changes nothing, where syn accepts the
/// sanitized name (a name that syn still rejects after two underscores is
/// left as it is) or the name holds nothing that can open an identifier.
pub proof fn lemma_sanitize_idempotent(s: Seq<char>)
    requires
        syn_accepts(sanitize(s)) || ident_body(s).len() == 0,
    ensures
        sanitize(sanitize(s)) == sanitize(s),
{
    let b = ident_body(s);
    lemma_body_shaped(s);
    let r = sanitize(s);
    if b.len() == 0 {
        let u1 = b.push('_');
        let u2 = u1.push('_');
        assert(r == b || r == u1 || r == u2);
        lemma_body_of_underscores(r);
        assert(ident_body(r) =~= b);
    } else {
        let u1 = b.push('_');
        let u2 = u1.push('_');
        assert(body_shaped(u1));
        assert(body_shaped(u2));
        lemma_body_fixed(r);
    }
}

/// The parts joined by the separator.
pub open spec fn join(parts: Seq<Seq<char>>, sep: Seq<char>) -> Seq<char>
    decreases parts.len(),
{
    if parts.len() == 0 {
        Seq::empty()
    } else if parts.len() == 1 {
        parts[0]
    } else {
        join(parts.drop_last(), sep) + sep + parts.last()
    }
}

/// The target syntax of an identifier: segments separated by `::`, then the
/// type parameters in angle brackets when there are any.
pub open spec fn render_view(v: (Seq<Seq<char>>, Seq<Seq<char>>)) -> Seq<char> {
    join(v.0, seq![':', ':']) + if v.1.len() == 0 {
        Seq::empty()
    } else {
        seq!['<'] + join(v.1, seq![',']) + seq!['>']
    }
}

fn push_str_chars(out: &mut Vec<char>, s: &String)
    ensures
        final(out)@ == old(out)@ + s@,
{
    let mut cs = chars_of(s.as_str());
    out.append(&mut cs);
}

fn join_chars(parts: &Vec<String>, sep: &Vec<char>) -> (r: Vec<char>)
    ensures
        r@ == join(strings_view(parts@), sep@),
{
    let mut out: Vec<char> = Vec::new();
    let mut i: usize = 0;
    while i < parts.len()
        invariant
            i <= parts@.len(),
            out@ == join(strings_view(parts@.subrange(0, i as int)), sep@),
        decreases parts@.len() - i,
    {
        let ghost before = strings_view(parts@.subrange(0, i as int));
        if i > 0 {
            let mut sp = sep.clone();
            assert(sp@ =~= sep@);
            out.append(&mut sp);
        }
        push_str_chars(&mut out, &parts[i]);
        proof {
            let after = strings_view(parts@.subrange(0, i + 1));
            assert(after.drop_last() =~= before);
            assert(after.last() == parts@[i as int]@);
            if i == 0 {
                assert(before.len() == 0);
                assert(after.len() == 1);
            }
        }
        i += 1;
    }
    assert(parts@.subrange(0, parts@.len() as int) =~= parts@);
    out
}

impl Identifier {
    /// A copy with the same segments and type parameters.
    pub fn copy(&self) -> (r: Identifier)
        ensures
            r@ == self@,
    {
        let a = self.type_parts.clone();
        let b = self.type_params.clone();
        assert(strings_view(a@) =~= strings_view(self.type_parts@));
        assert(strings_view(b@) =~= strings_view(self.type_params@));
        Identifier { type_parts: a, type_params: b }
    }

    /// The identifier with `prefix` before its last segment.
    pub fn prefix_name(&self, prefix: &str) -> (r: Identifier)
        requires
            self@.0.len() > 0,
        ensures
            r@ == (self@.0.update(self@.0.len() - 1, prefix@ + self@.0.last()), self@.1),
    {
        let mut parts = self.type_parts.clone();
        let n = parts.len();
        let mut t: Vec<char> = chars_of(prefix);
        let mut last = chars_of(parts[n - 1].as_str());
        t.append(&mut last);
        let ghost before = parts@;
        parts.set(n - 1, string_of(&t));
        let params = self.type_params.clone();
        assert(strings_view(parts@) =~= self@.0.update(self@.0.len() - 1, prefix@ + self@.0.last()));
        assert(strings_view(params@) =~= self@.1);
        Identifier { type_parts: parts, type_params: params }
    }

    /// The identifier in target syntax.
    pub fn render(&self) -> (r: String)
        ensures
            r@ == render_view(self@),
    {
        let path_sep = vec![':', ':'];
        assert(path_sep@ =~= seq![':', ':']);
        let mut out = join_chars(&self.type_parts, &path_sep);
        let ghost head = out@;
        if self.type_params.len() > 0 {
            out.push('<');
            let list_sep = vec![','];
            assert(list_sep@ =~= seq![',']);
            let mut ps = join_chars(&self.type_params, &list_sep);
            out.append(&mut ps);
            out.push('>');
            assert(out@ =~= head + (seq!['<'] + join(self@.1, seq![',']) + seq!['>']));
        } else {
            assert(self@.1.len() == 0);
            assert(out@ =~= head + Seq::<char>::empty());
        }
        string_of(&out)
    }
}

/// Rendering a sanitized identifier and sanitizing the text gives the same
/// identifier back, on the names where sanitizing is idempotent.
pub proof fn lemma_sanitize_render(s: Seq<char>)
    requires
        syn_accepts(sanitize(s)) || ident_body(s).len() == 0,
    ensures
        ident_view(render_view(ident_view(s))) == ident_view(s),
{
    let v = ident_view(s);
    assert(render_view(v) =~= sanitize(s));
    lemma_sanitize_idempotent(s);
}


/// What heck's snake case conversion makes of a string.
pub uninterp spec fn snake_of(s: Seq<char>) -> Seq<char>;

/// What heck's upper camel case conversion makes of a string.
pub uninterp spec fn camel_of(s: Seq<char>) -> Seq<char>;

/// Relies on heck's `SnakeCase::to_snake_case` for `str`: the result depends
/// on the characters alone.
#[verifier::external_body]
fn snake_case(s: &str) -> (r: String)
    ensures
        r@ == snake_of(s@),
{
    s.to_snake_case()
}

/// Relies on heck's `CamelCase::to_camel_case` for `str`: the result depends
/// on the characters alone.
#[verifier::external_body]
fn camel_case(s: &str) -> (r: String)
    ensures
        r@ == camel_of(s@),
{
    s.to_camel_case()
}

/// Sanitizes the snake case form of a name.
pub fn to_snake_case_ident(s: &str) -> (r: Identifier)
    ensures
        r@ == ident_view(snake_of(s@)),
{
    let t = snake_case(s);
    to_ident(t.as_str())
}

/// Sanitizes the camel case form of a name.
pub fn to_camel_case_ident(s: &str) -> (r: Identifier)
    ensures
        r@ == ident_view(camel_of(s@)),
{
    let t = camel_case(s);
    to_ident(t.as_str())
}

pub open spec fn ends_with(s: Seq<char>, tail: Seq<char>) -> bool {
    s.len() >= tail.len() && s.subrange(s.len() - tail.len(), s.len() as int) == tail
}

/// A file name without its declaration-file suffix: `.d.ts` first, else `.ts`.
pub open spec fn strip_ts_suffix(s: Seq<char>) -> Seq<char> {
    if ends_with(s, seq!['.', 'd', '.', 't', 's']) {
        s.subrange(0, s.len() - 5)
    } else if ends_with(s, seq!['.', 't', 's']) {
        s.subrange(0, s.len() - 3)
    } else {
        s
    }
}

fn ends_with_chars(s: &Vec<char>, tail: &Vec<char>) -> (r: bool)
    ensures
        r == ends_with(s@, tail@),
{
    if s.len() < tail.len() {
        return false;
    }
    let n = s.len();
    let off = n - tail.len();
    let mut i: usize = 0;
    while i < tail.len()
        invariant
            n == s@.len(),
            off + tail@.len() == s@.len(),
            i <= tail@.len(),
            forall|j: int| 0 <= j < i ==> s@[off + j] == tail@[j],
        decreases tail@.len() - i,
    {
        if s[off + i] != tail[i] {
            assert(s@.subrange(off as int, s@.len() as int)[i as int] != tail@[i as int]);
            return false;
        }
        i += 1;
    }
    assert(s@.subrange(off as int, s@.len() as int) =~= tail@);
    true
}

fn strip_ts_suffix_chars(s: &Vec<char>) -> (r: Vec<char>)
    ensures
        r@ == strip_ts_suffix(s@),
{
    let dts = vec!['.', 'd', '.', 't', 's'];
    let ts = vec!['.', 't', 's'];
    assert(dts@ =~= seq!['.', 'd', '.', 't', 's']);
    assert(ts@ =~= seq!['.', 't', 's']);
    let mut out = s.clone();
    assert(out@ =~= s@);
    if ends_with_chars(s, &dts) {
        out.truncate(s.len() - 5);
    } else if ends_with_chars(s, &ts) {
        out.truncate(s.len() - 3);
    }
    assert(out@ =~= strip_ts_suffix(s@));
    out
}

/// The module name for a file or namespace name: the declaration-file suffix
/// is stripped, then the snake case form is sanitized.
pub fn to_ns_name(ns: &str) -> (r: Identifier)
    ensures
        r@ == ident_view(snake_of(strip_ts_suffix(ns@))),
{
    let cs = chars_of(ns);
    let stripped = string_of(&strip_ts_suffix_chars(&cs));
    to_snake_case_ident(stripped.as_str())
}

pub open spec fn underscores(n: nat) -> Seq<char> {
    Seq::new(n, |i: int| '_')
}

/// `desired` followed by the fewest underscores that make a name no entry of
/// `taken` holds.
pub open spec fn is_first_free(desired: Seq<char>, taken: Seq<Seq<char>>, r: Seq<char>) -> bool {
    exists|k: nat|
        {
            &&& r == desired + underscores(k)
            &&& !taken.contains(r)
            &&& forall|j: nat| j < k ==> taken.contains(#[trigger] (desired + underscores(j)))
        }
}

fn contains_string(v: &Vec<String>, s: &String) -> (r: bool)
    ensures
        r == strings_view(v@).contains(s@),
{
    let mut i: usize = 0;
    while i < v.len()
        invariant
            i <= v@.len(),
            forall|j: int| 0 <= j < i ==> v@[j]@ != s@,
        decreases v@.len() - i,
    {
        if v[i] == *s {
            assert(strings_view(v@)[i as int] == s@);
            return true;
        }
        i += 1;
    }
    proof {
        if strings_view(v@).contains(s@) {
            let j = choose|j: int| 0 <= j < v@.len() && strings_view(v@)[j] == s@;
            assert(v@[j]@ == s@);
        }
    }
    false
}

fn max_len(v: &Vec<String>) -> (m: usize)
    ensures
        forall|j: int| 0 <= j < v@.len() ==> v@[j]@.len() <= m,
{
    let mut m: usize = 0;
    let mut i: usize = 0;
    while i < v.len()
        invariant
            i <= v@.len(),
            forall|j: int| 0 <= j < i ==> v@[j]@.len() <= m,
        decreases v@.len() - i,
    {
        let l = v[i].as_str().unicode_len();
        if l > m {
            m = l;
        }
        i += 1;
    }
    m
}

/// Appends `_` to `desired` until no entry of `taken` holds it, then
/// sanitizes the result.
pub fn to_unique_ident(desired: String, taken: &Vec<String>) -> (r: Identifier)
    ensures
        exists|name: Seq<char>|
            is_first_free(desired@, strings_view(taken@), name) && r@ == ident_view(name),
{
    let m = max_len(taken);
    let mut d = desired;
    let ghost k: nat = 0;
    let ghost start = d@;
    let tv = Ghost(strings_view(taken@));
    while contains_string(taken, &d)
        invariant
            tv@ == strings_view(taken@),
            d@ == start + underscores(k),
            forall|j: nat| j < k ==> tv@.contains(#[trigger] (start + underscores(j))),
            forall|j: int| 0 <= j < taken@.len() ==> taken@[j]@.len() <= m,
            tv@.contains(d@) ==> d@.len() <= m,
        decreases m + 1 - d@.len(),
    {
        proof {
            let j = choose|j: int| 0 <= j < tv@.len() && tv@[j] == d@;
            assert(taken@[j]@ == d@);
            assert(d@.len() <= m);
        }
        let mut u = String::new();
        proof {
            reveal_strlit("_");
        }
        u.append("_");
        d.append(u.as_str());
        proof {
            assert(underscores(k + 1) =~= underscores(k) + seq!['_']);
            k = k + 1;
        }
    }
    assert(is_first_free(start, tv@, d@));
    to_ident(d.as_str())
}


/// The strings joined by the separator.
pub fn join_strings(parts: &Vec<String>, sep: &str) -> (r: String)
    ensures
        r@ == join(strings_view(parts@), sep@),
{
    let sv = chars_of(sep);
    string_of(&join_chars(parts, &sv))
}

}
