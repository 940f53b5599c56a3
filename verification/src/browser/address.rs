//! Search configuration and the resolution of what the user typed in the
//! address bar into the address to open.
use vstd::prelude::*;
use vstd::utf8::encode_utf8;

use crate::browser::history::is_web_address;
use crate::text::{
    is_unicode_whitespace, lemma_trim_keeps, lemma_trimmed_ends,
    ascii_lower, chars_of, contains_char, has_prefix, replace, replace_all, push_all, same_chars,
    starts_with, string_of, to_ascii_lower, trim, trim_end_char, trim_end_matching, trim_ws,
};

verus! {

/// A named search engine and its query template, in which `%s` stands for
/// the encoded query.
#[derive(Debug)]
pub struct EngineEntry {
    name: String,
    template: String,
}

/// What a [`SearchConfig`] stands for: the name of the default engine and
/// the map from engine names to query templates.
pub struct SearchConfigView {
    pub default_engine: Seq<char>,
    pub engines: Map<Seq<char>, Seq<char>>,
}

/// The search engines known to the browser and the one used by default.
#[derive(Debug)]
pub struct SearchConfig {
    default_engine: String,
    engines: Vec<EngineEntry>,
}

/// The map from names to templates that a list of entries with distinct
/// names stands for.
spec fn entries_map(s: Seq<EngineEntry>) -> Map<Seq<char>, Seq<char>> {
    Map::new(
        |k: Seq<char>| exists|i: int| 0 <= i < s.len() && s[i].name@ == k,
        |k: Seq<char>| s[choose|i: int| 0 <= i < s.len() && s[i].name@ == k].template@,
    )
}

spec fn names_distinct(s: Seq<EngineEntry>) -> bool {
    forall|i: int, j: int| 0 <= i < s.len() && 0 <= j < s.len() && i != j ==> s[i].name@ != s[j].name@
}

proof fn lemma_entries_map_at(s: Seq<EngineEntry>, i: int)
    requires
        names_distinct(s),
        0 <= i < s.len(),
    ensures
        entries_map(s).contains_key(s[i].name@),
        entries_map(s)[s[i].name@] == s[i].template@,
{
    let k = s[i].name@;
    assert(exists|j: int| 0 <= j < s.len() && s[j].name@ == k);
    let j = choose|j: int| 0 <= j < s.len() && s[j].name@ == k;
    assert(j == i);
}

proof fn lemma_entries_map_absent(s: Seq<EngineEntry>, k: Seq<char>)
    requires
        forall|i: int| 0 <= i < s.len() ==> s[i].name@ != k,
    ensures
        !entries_map(s).contains_key(k),
{
}

/// Where the engine called `name` is stored in `engines`, if it is there.
fn find_engine(engines: &Vec<EngineEntry>, name: &str) -> (r: Option<usize>)
    ensures
        match r {
            Some(i) => i < engines.len() && engines@[i as int].name@ == name@,
            None => forall|i: int| 0 <= i < engines@.len() ==> engines@[i].name@ != name@,
        },
{
    let key: String = name.to_owned();
    let mut i: usize = 0;
    while i < engines.len()
        invariant
            i <= engines.len(),
            key@ == name@,
            forall|j: int| 0 <= j < i ==> engines@[j].name@ != name@,
        decreases engines.len() - i,
    {
        if engines[i].name == key {
            return Some(i);
        }
        i = i + 1;
    }
    None
}

impl View for SearchConfig {
    type V = SearchConfigView;

    closed spec fn view(&self) -> SearchConfigView {
        SearchConfigView { default_engine: self.default_engine@, engines: entries_map(self.engines@) }
    }
}

impl SearchConfig {
    #[verifier::type_invariant]
    spec fn well_formed(self) -> bool {
        names_distinct(self.engines@)
    }

    /// A configuration with no engine yet, whose default is `default_engine`.
    pub fn new(default_engine: String) -> (c: Self)
        ensures
            c@.default_engine == default_engine@,
            c@.engines == Map::<Seq<char>, Seq<char>>::empty(),
    {
        let c = SearchConfig { default_engine, engines: Vec::new() };
        assert(c@.engines =~= Map::<Seq<char>, Seq<char>>::empty());
        c
    }

    /// Whether an engine called `name` is known (`HashMap::contains_key`).
    pub fn contains_engine(&self, name: &str) -> (b: bool)
        ensures
            b == self@.engines.contains_key(name@),
    {
        proof {
            use_type_invariant(self);
        }
        match find_engine(&self.engines, name) {
            Some(i) => {
                proof {
                    lemma_entries_map_at(self.engines@, i as int);
                }
                true
            },
            None => {
                proof {
                    lemma_entries_map_absent(self.engines@, name@);
                }
                false
            },
        }
    }

    /// The template of the engine called `name` (`HashMap::get`).
    pub fn engine(&self, name: &str) -> (r: Option<String>)
        ensures
            match r {
                Some(t) => self@.engines.contains_key(name@) && t@ == self@.engines[name@],
                None => !self@.engines.contains_key(name@),
            },
    {
        proof {
            use_type_invariant(self);
        }
        match find_engine(&self.engines, name) {
            Some(i) => {
                proof {
                    lemma_entries_map_at(self.engines@, i as int);
                }
                Some(self.engines[i].template.clone())
            },
            None => {
                proof {
                    lemma_entries_map_absent(self.engines@, name@);
                }
                None
            },
        }
    }

    /// The name of the default engine.
    pub fn default_engine(&self) -> (r: String)
        ensures
            r@ == self@.default_engine,
    {
        self.default_engine.clone()
    }

    /// Makes `name` the default engine; the engines stay as they are.
    pub fn set_default_engine(&mut self, name: String)
        ensures
            final(self)@.default_engine == name@,
            final(self)@.engines == old(self)@.engines,
    {
        proof {
            use_type_invariant(&*self);
        }
        self.default_engine = name;
    }

    /// Adds the engine `name` with `template`, replacing the template of an
    /// engine of that name (`HashMap::insert`).
    pub fn insert_engine(&mut self, name: String, template: String)
        ensures
            final(self)@.default_engine == old(self)@.default_engine,
            final(self)@.engines == old(self)@.engines.insert(name@, template@),
    {
        proof {
            use_type_invariant(&*self);
        }
        let ghost old_entries = self.engines@;
        let ghost k = name@;
        let ghost t = template@;
        let mut engines: Vec<EngineEntry> = Vec::new();
        std::mem::swap(&mut engines, &mut self.engines);
        match find_engine(&engines, name.as_str()) {
            Some(i) => {
                let entry = EngineEntry { name, template };
                engines.set(i, entry);
                proof {
                    let s = engines@;
                    assert(names_distinct(s));
                    assert forall|key: Seq<char>|
                        #![auto]
                        entries_map(s).contains_key(key) == entries_map(old_entries).insert(
                            k,
                            t,
                        ).contains_key(key) by {
                        if key != k {
                            if entries_map(old_entries).contains_key(key) {
                                let j = choose|j: int|
                                    0 <= j < old_entries.len() && old_entries[j].name@ == key;
                                assert(s[j].name@ == key);
                            }
                            if entries_map(s).contains_key(key) {
                                let j = choose|j: int| 0 <= j < s.len() && s[j].name@ == key;
                                assert(old_entries[j].name@ == key);
                            }
                        } else {
                            lemma_entries_map_at(s, i as int);
                        }
                    }
                    assert forall|key: Seq<char>| #[trigger]
                        entries_map(s).contains_key(key) implies entries_map(s)[key]
                        == entries_map(old_entries).insert(k, t)[key] by {
                        let j = choose|j: int| 0 <= j < s.len() && s[j].name@ == key;
                        lemma_entries_map_at(s, j);
                        if key != k {
                            assert(old_entries[j].name@ == key);
                            lemma_entries_map_at(old_entries, j);
                        } else {
                            assert(j == i);
                        }
                    }
                    assert(entries_map(s) =~= entries_map(old_entries).insert(k, t));
                }
            },
            None => {
                engines.push(EngineEntry { name, template });
                proof {
                    let s = engines@;
                    assert(names_distinct(s));
                    assert forall|key: Seq<char>|
                        #![auto]
                        entries_map(s).contains_key(key) == entries_map(old_entries).insert(
                            k,
                            t,
                        ).contains_key(key) by {
                        if key != k {
                            if entries_map(old_entries).contains_key(key) {
                                let j = choose|j: int|
                                    0 <= j < old_entries.len() && old_entries[j].name@ == key;
                                assert(s[j].name@ == key);
                            }
                            if entries_map(s).contains_key(key) {
                                let j = choose|j: int| 0 <= j < s.len() && s[j].name@ == key;
                                assert(old_entries[j].name@ == key);
                            }
                        } else {
                            lemma_entries_map_at(s, old_entries.len() as int);
                        }
                    }
                    assert forall|key: Seq<char>| #[trigger]
                        entries_map(s).contains_key(key) implies entries_map(s)[key]
                        == entries_map(old_entries).insert(k, t)[key] by {
                        let j = choose|j: int| 0 <= j < s.len() && s[j].name@ == key;
                        lemma_entries_map_at(s, j);
                        if key != k {
                            assert(old_entries[j].name@ == key);
                            lemma_entries_map_at(old_entries, j);
                        }
                    }
                    assert(entries_map(s) =~= entries_map(old_entries).insert(k, t));
                }
            },
        }
        self.engines = engines;
    }
}

impl EngineEntry {
    fn duplicate(&self) -> (r: EngineEntry)
        ensures
            r.name@ == self.name@,
            r.template@ == self.template@,
    {
        EngineEntry { name: self.name.clone(), template: self.template.clone() }
    }
}

impl Clone for SearchConfig {
    /// A copy standing for the same configuration.
    fn clone(&self) -> (r: Self)
        ensures
            r@ == self@,
    {
        proof {
            use_type_invariant(self);
        }
        let mut engines: Vec<EngineEntry> = Vec::new();
        let mut i: usize = 0;
        while i < self.engines.len()
            invariant
                i <= self.engines.len(),
                names_distinct(self.engines@),
                engines@.len() == i,
                forall|j: int|
                    0 <= j < i ==> #[trigger] engines@[j].name@ == self.engines@[j].name@
                        && engines@[j].template@ == self.engines@[j].template@,
            decreases self.engines.len() - i,
        {
            engines.push(self.engines[i].duplicate());
            i = i + 1;
        }
        let r = SearchConfig { default_engine: self.default_engine.clone(), engines };
        proof {
            let (s, o) = (r.engines@, self.engines@);
            assert forall|key: Seq<char>|
                #![auto]
                entries_map(s).contains_key(key) == entries_map(o).contains_key(key) by {
                if entries_map(s).contains_key(key) {
                    let j = choose|j: int| 0 <= j < s.len() && s[j].name@ == key;
                    assert(o[j].name@ == key);
                }
                if entries_map(o).contains_key(key) {
                    let j = choose|j: int| 0 <= j < o.len() && o[j].name@ == key;
                    assert(s[j].name@ == key);
                }
            }
            assert forall|key: Seq<char>| #[trigger]
                entries_map(s).contains_key(key) implies entries_map(s)[key] == entries_map(
                o,
            )[key] by {
                let j = choose|j: int| 0 <= j < s.len() && s[j].name@ == key;
                lemma_entries_map_at(s, j);
                lemma_entries_map_at(o, j);
            }
            assert(entries_map(s) =~= entries_map(o));
        }
        r
    }
}

impl SearchConfig {
    /// The configuration of a private window: a copy of `self` whose
    /// default engine is `brave` when such an engine is known, and is left
    /// as it is otherwise.
    pub fn private_copy(&self) -> (r: SearchConfig)
        ensures
            r@.engines == self@.engines,
            r@.default_engine == (if self@.engines.contains_key("brave"@) {
                "brave"@
            } else {
                self@.default_engine
            }),
    {
        let mut r = self.clone();
        if r.contains_engine("brave") {
            r.set_default_engine("brave".to_owned());
        }
        r
    }
}

// ---------------------------------------------------------------------------
// Address resolution
// ---------------------------------------------------------------------------

/// The bytes that `application/x-www-form-urlencoded` serialisation keeps
/// as they are: ASCII letters and digits and `*`, `-`, `.`, `_`.
pub open spec fn form_unreserved(b: u8) -> bool {
    ||| b == 0x2A
    ||| b == 0x2D
    ||| b == 0x2E
    ||| 0x30 <= b <= 0x39
    ||| 0x41 <= b <= 0x5A
    ||| b == 0x5F
    ||| 0x61 <= b <= 0x7A
}

/// Upper-case hexadecimal digit for `d` in `0..16`.
pub open spec fn upper_hex_digit(d: int) -> char {
    if d < 10 {
        (48 + d) as char
    } else {
        (55 + d) as char
    }
}

/// The serialisation of one byte: kept, `+` for a space, else `%XX`.
pub open spec fn form_encode_byte(b: u8) -> Seq<char> {
    if form_unreserved(b) {
        seq![b as char]
    } else if b == 0x20 {
        seq!['+']
    } else {
        seq!['%', upper_hex_digit(b as int / 16), upper_hex_digit(b as int % 16)]
    }
}

/// The `application/x-www-form-urlencoded` serialisation of `bytes`.
pub open spec fn form_urlencoded_chars(bytes: Seq<u8>) -> Seq<char>
    decreases bytes.len(),
{
    if bytes.len() == 0 {
        Seq::empty()
    } else {
        form_encode_byte(bytes[0]) + form_urlencoded_chars(bytes.drop_first())
    }
}

/// Calls `url::form_urlencoded::byte_serialize` on the UTF-8 bytes of
/// `input` and collects the pieces. The contract restates that function's
/// source: each byte that is an ASCII letter or digit or one of `*-._` is
/// kept, a space becomes `+`, and every other byte becomes `%` followed by
/// its two upper-case hexadecimal digits.
#[verifier::external_body]
fn form_urlencode(input: &str) -> (r: String)
    ensures
        r@ == form_urlencoded_chars(encode_utf8(input@)),
{
    url::form_urlencoded::byte_serialize(input.as_bytes()).collect()
}

/// Whether trimmed input reads as a host name: it has a dot and no space.
pub open spec fn looks_like_host(t: Seq<char>) -> bool {
    t.contains('.') && !t.contains(' ')
}

/// Whether `host` names YouTube, in any ASCII case.
pub open spec fn is_youtube_host(host: Seq<char>) -> bool {
    ||| ascii_lower(host) == ascii_lower("youtube.com"@)
    ||| ascii_lower(host) == ascii_lower("www.youtube.com"@)
}

/// Whether the input is a search query, which only a search engine can
/// turn into an address.
pub open spec fn needs_search(input: Seq<char>) -> bool {
    let t = trim_ws(input);
    &&& t.len() > 0
    &&& !has_prefix(t, "axys://"@)
    &&& !has_prefix(t, "http://"@)
    &&& !has_prefix(t, "https://"@)
    &&& !looks_like_host(t)
}

/// The address that address-bar input stands for, given the query
/// template of the default search engine: blank input opens a new tab,
/// internal and web addresses are kept, host names get `https://` (YouTube
/// its canonical address), and anything else is searched for.
pub open spec fn resolved_address(input: Seq<char>, template: Seq<char>) -> Seq<char> {
    let t = trim_ws(input);
    if t.len() == 0 {
        "axys://newtab"@
    } else if has_prefix(t, "axys://"@) {
        t
    } else if has_prefix(t, "http://"@) || has_prefix(t, "https://"@) {
        t
    } else if looks_like_host(t) {
        if is_youtube_host(trim_end_char(t, '/')) {
            "https://www.youtube.com"@
        } else {
            "https://"@ + t
        }
    } else {
        replace_all(template, "%s"@, form_urlencoded_chars(encode_utf8(t)))
    }
}

/// Whether `input` is a search query, so that resolving it needs the
/// default search engine.
pub fn is_search_input(input: &str) -> (b: bool)
    ensures
        b == needs_search(input@),
{
    let t = trim(&chars_of(input));
    t.len() > 0 && !starts_with(&t, &chars_of("axys://")) && !starts_with(&t, &chars_of("http://"))
        && !starts_with(&t, &chars_of("https://")) && !(contains_char(&t, '.') && !contains_char(
        &t,
        ' ',
    ))
}

/// Turns address-bar input into the address to open.
pub fn resolve_input(input: &str, config: &SearchConfig) -> (r: String)
    requires
        needs_search(input@) ==> config@.engines.contains_key(config@.default_engine),
    ensures
        r@ == resolved_address(input@, config@.engines[config@.default_engine]),
{
    let t = trim(&chars_of(input));
    if t.len() == 0 {
        return "axys://newtab".to_owned();
    }
    if starts_with(&t, &chars_of("axys://")) {
        return string_of(&t);
    }
    if starts_with(&t, &chars_of("http://")) || starts_with(&t, &chars_of("https://")) {
        return string_of(&t);
    }
    if contains_char(&t, '.') && !contains_char(&t, ' ') {
        let host = to_ascii_lower(&trim_end_matching(&t, '/'));
        if same_chars(&host, &to_ascii_lower(&chars_of("youtube.com"))) || same_chars(
            &host,
            &to_ascii_lower(&chars_of("www.youtube.com")),
        ) {
            return "https://www.youtube.com".to_owned();
        }
        let mut out = chars_of("https://");
        push_all(&mut out, &t);
        return string_of(&out);
    }
    let default_name = config.default_engine();
    match config.engine(default_name.as_str()) {
        Some(template) => {
            let query = string_of(&t);
            let encoded = form_urlencode(query.as_str());
            let pattern = chars_of("%s");
            proof {
                reveal_strlit("%s");
            }
            string_of(&replace(&chars_of(template.as_str()), &pattern, &chars_of(encoded.as_str())))
        },
        None => {
            proof {
                assert(false);
            }
            String::new()
        },
    }
}

/// `r` is an address that resolution keeps as it is: an internal or web
/// address with no surrounding whitespace.
pub open spec fn is_settled_address(r: Seq<char>) -> bool {
    &&& trim_ws(r) == r
    &&& (has_prefix(r, "axys://"@) || has_prefix(r, "http://"@) || has_prefix(r, "https://"@))
}

/// `template` is a query template that gives web addresses: it starts with
/// `http://` or `https://` and has no surrounding whitespace.
pub open spec fn is_web_template(template: Seq<char>) -> bool {
    is_web_address(template) && trim_ws(template) == template
}

/// The UTF-8 encoding of a non-empty text is not empty.
proof fn lemma_encoding_nonempty(t: Seq<char>)
    requires
        t.len() > 0,
    ensures
        encode_utf8(t).len() > 0,
{
    assert(vstd::utf8::encode_scalar(t[0] as u32).len() > 0);
}

/// The form encoding of `bytes` holds no whitespace and is no shorter than
/// `bytes`.
proof fn lemma_form_chars_plain(bytes: Seq<u8>)
    ensures
        form_urlencoded_chars(bytes).len() >= bytes.len(),
        forall|i: int|
            0 <= i < form_urlencoded_chars(bytes).len() ==> !is_unicode_whitespace(
                #[trigger] form_urlencoded_chars(bytes)[i],
            ),
    decreases bytes.len(),
{
    if bytes.len() > 0 {
        lemma_form_chars_plain(bytes.drop_first());
        let b = bytes[0];
        let head = form_encode_byte(b);
        let rest = form_urlencoded_chars(bytes.drop_first());
        assert forall|i: int| 0 <= i < head.len() implies !is_unicode_whitespace(#[trigger] head[i]) by {
            if form_unreserved(b) {
                assert(head[i] == b as char);
            } else if b == 0x20 {
            } else {
                let hi = b as int / 16;
                let lo = b as int % 16;
                assert(0 <= hi < 16 && 0 <= lo < 16);
            }
        }
        assert forall|i: int|
            0 <= i < form_urlencoded_chars(bytes).len() implies !is_unicode_whitespace(
            #[trigger] form_urlencoded_chars(bytes)[i],
        ) by {
            if i < head.len() {
                assert(form_urlencoded_chars(bytes)[i] == head[i]);
            } else {
                assert(form_urlencoded_chars(bytes)[i] == rest[i - head.len()]);
            }
        }
    }
}

/// Replacing `%s` keeps a prefix that holds no `%`.
proof fn lemma_replace_keeps_prefix(s: Seq<char>, p: Seq<char>, rep: Seq<char>)
    requires
        has_prefix(s, p),
        forall|i: int| 0 <= i < p.len() ==> p[i] != '%',
    ensures
        has_prefix(replace_all(s, "%s"@, rep), p),
    decreases p.len(),
{
    reveal_strlit("%s");
    if p.len() > 0 && s.len() >= 2 {
        assert(s[0] == p[0]);
        assert(s.subrange(0, 2)[0] != "%s"@[0]);
        assert(s.subrange(0, 2) != "%s"@);
        assert(s.drop_first().subrange(0, p.len() - 1) =~= p.drop_first());
        lemma_replace_keeps_prefix(s.drop_first(), p.drop_first(), rep);
        let r = replace_all(s, "%s"@, rep);
        let q = replace_all(s.drop_first(), "%s"@, rep);
        assert(r == seq![s[0]] + q);
        assert(r.subrange(0, p.len() as int) =~= seq![s[0]] + q.subrange(0, p.len() - 1));
        assert(seq![p[0]] + p.drop_first() =~= p);
        assert(has_prefix(r, p));
    } else if p.len() > 0 {
        assert(replace_all(s, "%s"@, rep) == s);
    } else {
        assert(replace_all(s, "%s"@, rep).subrange(0, 0) =~= p);
    }
}

/// Replacing `%s` by a non-empty text in a non-empty text ends with the
/// last character of one or the other.
proof fn lemma_replace_last(s: Seq<char>, rep: Seq<char>)
    requires
        s.len() > 0,
        rep.len() > 0,
    ensures
        replace_all(s, "%s"@, rep).len() > 0,
        replace_all(s, "%s"@, rep).last() == s.last() || replace_all(s, "%s"@, rep).last()
            == rep.last(),
    decreases s.len(),
{
    reveal_strlit("%s");
    let r = replace_all(s, "%s"@, rep);
    if s.len() < 2 {
    } else if s.subrange(0, 2) == "%s"@ {
        let rest = s.skip(2);
        if rest.len() > 0 {
            lemma_replace_last(rest, rep);
            assert(rest.last() == s.last());
        } else {
            assert(replace_all(rest, "%s"@, rep) =~= Seq::<char>::empty());
            assert(r =~= rep);
        }
    } else {
        let rest = s.drop_first();
        lemma_replace_last(rest, rep);
    }
}

/// A search with a web template gives an address that resolution keeps.
proof fn lemma_search_settles(t: Seq<char>, template: Seq<char>)
    requires
        t.len() > 0,
        is_web_template(template),
    ensures
        is_settled_address(replace_all(template, "%s"@, form_urlencoded_chars(encode_utf8(t)))),
{
    reveal_strlit("http://");
    reveal_strlit("https://");
    let rep = form_urlencoded_chars(encode_utf8(t));
    let r = replace_all(template, "%s"@, rep);
    lemma_encoding_nonempty(t);
    lemma_form_chars_plain(encode_utf8(t));
    assert(!is_unicode_whitespace(rep[rep.len() - 1]));
    lemma_trimmed_ends(template);
    if has_prefix(template, "https://"@) {
        lemma_replace_keeps_prefix(template, "https://"@, rep);
    } else {
        lemma_replace_keeps_prefix(template, "http://"@, rep);
    }
    lemma_replace_last(template, rep);
    if has_prefix(r, "https://"@) {
        assert(r[0] == r.subrange(0, 8)[0]);
    } else {
        assert(r[0] == r.subrange(0, 7)[0]);
    }
    assert(r[0] == 'h');
    lemma_trim_keeps(r);
}

/// Resolving an address that resolution gave gives that address again,
/// whatever engine is the default: what the address bar shows after
/// navigating leads back to the same place. For a search query this holds
/// when the engine's template starts with `http://` or `https://` and has
/// no surrounding whitespace.
pub proof fn law_resolution_is_stable(input: Seq<char>, template: Seq<char>, other: Seq<char>)
    requires
        needs_search(input) ==> is_web_template(template),
    ensures
        resolved_address(resolved_address(input, template), other) == resolved_address(
            input,
            template,
        ),
{
    reveal_strlit("axys://");
    reveal_strlit("axys://newtab");
    reveal_strlit("http://");
    reveal_strlit("https://");
    reveal_strlit("https://www.youtube.com");
    if needs_search(input) {
        lemma_search_settles(trim_ws(input), template);
        let r = resolved_address(input, template);
        assert(r.len() > 0);
    } else {
        lemma_resolution_settles(input, template);
    }
}

/// Input that names a host (a dot, no space, no scheme) becomes that
/// input, trimmed, behind `https://`, path and query included; only the
/// bare YouTube host (`youtube.com` or `www.youtube.com` in any ASCII
/// case, trailing `/` aside) is replaced by YouTube's canonical address.
pub proof fn law_host_input_keeps_path(input: Seq<char>, template: Seq<char>)
    requires
        trim_ws(input).len() > 0,
        !has_prefix(trim_ws(input), "axys://"@),
        !has_prefix(trim_ws(input), "http://"@),
        !has_prefix(trim_ws(input), "https://"@),
        trim_ws(input).contains('.'),
        !trim_ws(input).contains(' '),
    ensures
        ascii_lower(trim_end_char(trim_ws(input), '/')) != ascii_lower("youtube.com"@)
            && ascii_lower(trim_end_char(trim_ws(input), '/')) != ascii_lower("www.youtube.com"@)
            ==> resolved_address(input, template) == "https://"@ + trim_ws(input),
        ascii_lower(trim_end_char(trim_ws(input), '/')) == ascii_lower("youtube.com"@)
            || ascii_lower(trim_end_char(trim_ws(input), '/')) == ascii_lower("www.youtube.com"@)
            ==> resolved_address(input, template) == "https://www.youtube.com"@,
{
}

/// Resolution keeps what it gave for input that is no search query.
proof fn lemma_resolution_settles(input: Seq<char>, template: Seq<char>)
    requires
        !needs_search(input),
    ensures
        is_settled_address(resolved_address(input, template)),
{
    reveal_strlit("axys://");
    reveal_strlit("axys://newtab");
    reveal_strlit("http://");
    reveal_strlit("https://");
    reveal_strlit("https://www.youtube.com");
    let t = trim_ws(input);
    let r = resolved_address(input, template);
    lemma_trimmed_ends(input);
    if t.len() == 0 {
        lemma_trim_keeps(r);
        assert(r.subrange(0, 7) =~= "axys://"@);
    } else if has_prefix(t, "axys://"@) || has_prefix(t, "http://"@) || has_prefix(t, "https://"@) {
        lemma_trim_keeps(t);
    } else {
        if is_youtube_host(trim_end_char(t, '/')) {
            lemma_trim_keeps(r);
            assert(r.subrange(0, 8) =~= "https://"@);
            assert(r[0] != "axys://"@[0]);
        } else {
            assert(r[0] == 'h');
            assert(r.last() == t.last());
            lemma_trim_keeps(r);
            assert(r.subrange(0, 8) =~= "https://"@);
            assert(r.subrange(0, 7)[0] != "axys://"@[0]);
        }
    }
}

} // verus!
