//! Language selection, the ja/en message catalogs and `{{name}}`
//! interpolation. A catalog is a parsed locale file, looked up by
//! dotted keys (`steps.screen`).

use vstd::prelude::*;
use crate::text::{ascii_lower, chars_of, push_char, push_str, str_eq};

verus! {

/// UI language.
#[derive(Clone, Copy, Debug, PartialEq, Eq, Structural)]
pub enum Locale {
    Ja,
    En,
}

/// The two-letter code of a locale.
pub open spec fn locale_code(l: Locale) -> Seq<char> {
    match l {
        Locale::Ja => "ja"@,
        Locale::En => "en"@,
    }
}

/// The locale named by `code`, if any.
pub open spec fn locale_from_code(code: Seq<char>) -> Option<Locale> {
    if code == "ja"@ {
        Some(Locale::Ja)
    } else if code == "en"@ {
        Some(Locale::En)
    } else {
        None
    }
}

/// The other locale.
pub open spec fn locale_toggled(l: Locale) -> Locale {
    match l {
        Locale::Ja => Locale::En,
        Locale::En => Locale::Ja,
    }
}

impl Locale {
    /// The code stored in `profiles.json` ("ja" / "en").
    pub fn code(self) -> (r: &'static str)
        ensures
            r@ == locale_code(self),
    {
        match self {
            Locale::Ja => "ja",
            Locale::En => "en",
        }
    }

    /// Parses a stored code; any other text is `None`.
    pub fn from_code(code: &str) -> (r: Option<Locale>)
        ensures
            r == locale_from_code(code@),
    {
        if str_eq(code, "ja") {
            Some(Locale::Ja)
        } else if str_eq(code, "en") {
            Some(Locale::En)
        } else {
            None
        }
    }

    /// The other language.
    pub fn toggled(self) -> (r: Locale)
        ensures
            r == locale_toggled(self),
    {
        match self {
            Locale::Ja => Locale::En,
            Locale::En => Locale::Ja,
        }
    }

    /// UI label for the language toggle: the code itself.
    pub fn label(self) -> (r: &'static str)
        ensures
            r@ == locale_code(self),
    {
        self.code()
    }
}

/// A locale name that, lower-cased, starts with `ja`.
pub open spec fn names_japanese(name: Seq<char>) -> bool {
    name.len() >= 2 && ascii_lower(name[0]) == 'j' && ascii_lower(name[1]) == 'a'
}

/// The UI language for an OS locale setting: the first variable that is
/// set decides (`LC_ALL`, `LC_MESSAGES`, `LANG` in that order), Japanese
/// for a `ja…` value, English for any other non-empty one; unset or empty
/// values are skipped, and English is the default.
pub open spec fn locale_for_env(vars: Seq<Option<Seq<char>>>) -> Locale
    decreases vars.len(),
{
    if vars.len() == 0 {
        Locale::En
    } else {
        match vars[0] {
            Some(v) => if names_japanese(v) {
                Locale::Ja
            } else if v.len() > 0 {
                Locale::En
            } else {
                locale_for_env(vars.skip(1))
            },
            None => locale_for_env(vars.skip(1)),
        }
    }
}

/// The environment values as plain values.
pub open spec fn env_view(vars: Seq<Option<&str>>) -> Seq<Option<Seq<char>>> {
    vars.map_values(
        |v: Option<&str>|
            match v {
                Some(s) => Some(s@),
                None => None,
            },
    )
}

fn is_japanese_name(name: &str) -> (r: bool)
    ensures
        r == names_japanese(name@),
{
    let v = chars_of(name);
    if v.len() < 2 {
        return false;
    }
    let a = v[0];
    let b = v[1];
    let a_j = a == 'j' || a == 'J';
    let b_a = b == 'a' || b == 'A';
    a_j && b_a
}

impl Locale {
    /// The UI language for an OS locale name such as `ja-JP`: Japanese
    /// when it starts with `ja` in any case, English otherwise.
    pub fn from_locale_name(name: &str) -> (r: Locale)
        ensures
            r == (if names_japanese(name@) {
                Locale::Ja
            } else {
                Locale::En
            }),
    {
        if is_japanese_name(name) {
            Locale::Ja
        } else {
            Locale::En
        }
    }

    /// The UI language for the locale environment variables, given in
    /// `LC_ALL`, `LC_MESSAGES`, `LANG` order (`None` when unset).
    pub fn from_env(vars: &[Option<&str>]) -> (r: Locale)
        ensures
            r == locale_for_env(env_view(vars@)),
    {
        let ghost e = env_view(vars@);
        let mut i: usize = 0;
        assert(e.skip(0) =~= e);
        while i < vars.len()
            invariant
                i <= vars.len(),
                e == env_view(vars@),
                locale_for_env(e) == locale_for_env(e.skip(i as int)),
            decreases vars.len() - i,
        {
            proof {
                assert(e.skip(i as int)[0] == match vars@[i as int] {
                    Some(s) => Some(s@),
                    None => None::<Seq<char>>,
                });
                assert(e.skip(i as int).skip(1) =~= e.skip(i + 1));
            }
            match vars[i] {
                Some(v) => {
                    if is_japanese_name(v) {
                        return Locale::Ja;
                    }
                    if v.unicode_len() > 0 {
                        return Locale::En;
                    }
                },
                None => {},
            }
            i = i + 1;
        }
        Locale::En
    }
}

/// Reading back the code of a locale gives the locale again, and the two
/// codes differ.
pub proof fn locale_code_roundtrip(l: Locale)
    ensures
        locale_from_code(locale_code(l)) == Some(l),
        locale_code(Locale::Ja) != locale_code(Locale::En),
{
    reveal_strlit("ja");
    reveal_strlit("en");
    assert("ja"@[0] != "en"@[0]);
}

/// Toggling the language twice restores it, and a toggle always changes it.
pub proof fn locale_toggle_involution(l: Locale)
    ensures
        locale_toggled(locale_toggled(l)) == l,
        locale_toggled(l) != l,
{
}

/// `s` with every occurrence of `pat` replaced by `rep`, matches taken
/// left to right without overlap (`str::replace` for a non-empty pattern).
pub open spec fn replace_all(s: Seq<char>, pat: Seq<char>, rep: Seq<char>) -> Seq<char>
    decreases s.len(),
{
    if pat.len() == 0 || s.len() < pat.len() {
        s
    } else if s.take(pat.len() as int) == pat {
        rep + replace_all(s.skip(pat.len() as int), pat, rep)
    } else {
        seq![s[0]] + replace_all(s.skip(1), pat, rep)
    }
}

/// The placeholder `{{name}}`.
pub open spec fn placeholder(name: Seq<char>) -> Seq<char> {
    "{{"@ + name + "}}"@
}

/// The arguments of an interpolation as plain values.
pub open spec fn args_view(args: Seq<(&str, &str)>) -> Seq<(Seq<char>, Seq<char>)> {
    args.map_values(|a: (&str, &str)| (a.0@, a.1@))
}

/// `text` with each `{{name}}` replaced by its value, the arguments
/// applied one after the other in order.
pub open spec fn interpolated(text: Seq<char>, args: Seq<(Seq<char>, Seq<char>)>) -> Seq<char>
    decreases args.len(),
{
    if args.len() == 0 {
        text
    } else {
        replace_all(
            interpolated(text, args.drop_last()),
            placeholder(args.last().0),
            args.last().1,
        )
    }
}

proof fn lemma_replace_step(s: Seq<char>, pat: Seq<char>, rep: Seq<char>, i: int)
    requires
        pat.len() > 0,
        0 <= i <= s.len(),
    ensures
        i + pat.len() > s.len() ==> replace_all(s.skip(i), pat, rep) == s.skip(i),
        i + pat.len() <= s.len() && s.subrange(i, i + pat.len()) == pat ==> replace_all(
            s.skip(i),
            pat,
            rep,
        ) == rep + replace_all(s.skip(i + pat.len()), pat, rep),
        i + pat.len() <= s.len() && s.subrange(i, i + pat.len()) != pat ==> replace_all(
            s.skip(i),
            pat,
            rep,
        ) == seq![s[i]] + replace_all(s.skip(i + 1), pat, rep),
{
    let t = s.skip(i);
    if i + pat.len() <= s.len() {
        assert(t.take(pat.len() as int) =~= s.subrange(i, i + pat.len()));
        assert(t.skip(pat.len() as int) =~= s.skip(i + pat.len()));
        assert(t.skip(1) =~= s.skip(i + 1));
        assert(t[0] == s[i]);
    }
}

fn matches_at(v: &Vec<char>, p: &Vec<char>, i: usize) -> (r: bool)
    requires
        i + p.len() <= v.len(),
    ensures
        r == (v@.subrange(i as int, i + p.len()) == p@),
{
    let mut k: usize = 0;
    while k < p.len()
        invariant
            i + p.len() <= v.len(),
            k <= p.len(),
            forall|q: int| 0 <= q < k ==> v@[i + q] == p@[q],
        decreases p.len() - k,
    {
        if v[i + k] != p[k] {
            assert(v@.subrange(i as int, i + p.len())[k as int] != p@[k as int]);
            return false;
        }
        k = k + 1;
    }
    assert(v@.subrange(i as int, i + p.len()) =~= p@);
    true
}

/// `s` with every occurrence of the non-empty `pat` replaced by `rep`.
pub fn replace_str(s: &str, pat: &str, rep: &str) -> (r: String)
    requires
        pat@.len() > 0,
    ensures
        r@ == replace_all(s@, pat@, rep@),
{
    let v = chars_of(s);
    let p = chars_of(pat);
    let mut out = String::new();
    let mut i: usize = 0;
    assert(v@.skip(0) =~= v@);
    assert(out@ + replace_all(v@, p@, rep@) =~= replace_all(v@, p@, rep@));
    while i < v.len() && p.len() <= v.len() - i
        invariant
            v@ == s@,
            p@ == pat@,
            p.len() > 0,
            i <= v.len(),
            out@ + replace_all(v@.skip(i as int), p@, rep@) == replace_all(v@, p@, rep@),
        decreases v.len() - i,
    {
        proof {
            lemma_replace_step(v@, p@, rep@, i as int);
        }
        if matches_at(&v, &p, i) {
            let ghost before = out@;
            push_str(&mut out, rep);
            proof {
                assert(out@ + replace_all(v@.skip(i + p.len()), p@, rep@) =~= before + (rep@
                    + replace_all(v@.skip(i + p.len()), p@, rep@)));
            }
            i = i + p.len();
        } else {
            let ghost before = out@;
            push_char(&mut out, v[i]);
            proof {
                assert(out@ + replace_all(v@.skip(i + 1), p@, rep@) =~= before + (seq![v@[i as int]]
                    + replace_all(v@.skip(i + 1), p@, rep@)));
            }
            i = i + 1;
        }
    }
    proof {
        lemma_replace_step(v@, p@, rep@, i as int);
    }
    let mut k: usize = i;
    let ghost head = out@;
    assert(v@.subrange(i as int, i as int) =~= Seq::<char>::empty());
    assert(head + v@.subrange(i as int, i as int) =~= head);
    while k < v.len()
        invariant
            i <= k <= v.len(),
            out@ == head + v@.subrange(i as int, k as int),
            head + v@.skip(i as int) == replace_all(v@, p@, rep@),
        decreases v.len() - k,
    {
        push_char(&mut out, v[k]);
        proof {
            assert(v@.subrange(i as int, k + 1) =~= v@.subrange(i as int, k as int).push(v@[k as int]));
        }
        k = k + 1;
    }
    assert(v@.subrange(i as int, v.len() as int) =~= v@.skip(i as int));
    assert(out@ =~= head + v@.skip(i as int));
    out
}

/// `{{name}}` interpolation: each placeholder is replaced by its value,
/// the arguments applied in order (e.g. "Reconnecting {{n}}/{{max}}").
pub fn interpolate(text: &str, args: &[(&str, &str)]) -> (r: String)
    ensures
        r@ == interpolated(text@, args_view(args@)),
{
    let mut out = String::new();
    push_str(&mut out, text);
    let mut i: usize = 0;
    while i < args.len()
        invariant
            i <= args.len(),
            out@ == interpolated(text@, args_view(args@).take(i as int)),
        decreases args.len() - i,
    {
        let (name, value) = args[i];
        let mut pat = String::from_str("{{");
        push_str(&mut pat, name);
        push_str(&mut pat, "}}");
        proof {
            reveal_strlit("{{");
            reveal_strlit("}}");
            assert(pat@.len() >= 4);
        }
        let next = replace_str(out.as_str(), pat.as_str(), value);
        proof {
            let a = args_view(args@);
            assert(a.take(i + 1).drop_last() =~= a.take(i as int));
            assert(a.take(i + 1).last() == (name@, value@));
        }
        out = next;
        i = i + 1;
    }
    assert(args_view(args@).take(args.len() as int) =~= args_view(args@));
    out
}

/// A locale file as the catalog lookup reads it: texts, objects of named
/// members (each name once, in the order serde_json keeps them), and every
/// other JSON value.
#[derive(Debug)]
pub enum JsonNode {
    Str(String),
    Obj(Vec<(String, JsonNode)>),
    Other,
}

#[verifier::external_type_specification]
#[verifier::external_body]
pub struct ExJsonValue(serde_json::Value);

/// What `serde_json::from_str::<serde_json::Value>` makes of `text`, in
/// the library's terms: `None` where the text is not JSON.
pub uninterp spec fn json_parsed(text: Seq<char>) -> Option<JsonNode>;

/// Carries a parsed `serde_json::Value` over into a `JsonNode`, variant for
/// variant: strings and objects keep their contents, everything else is
/// `Other`. It states nothing; `parse_json` carries the claim.
#[verifier::external_body]
fn json_node(v: serde_json::Value) -> JsonNode {
    match v {
        serde_json::Value::String(s) => JsonNode::Str(s),
        serde_json::Value::Object(m) => JsonNode::Obj(m.into_iter().map(|(k, x)| (k, json_node(x))).collect()),
        _ => JsonNode::Other,
    }
}

/// Parses a locale file with `serde_json::from_str` into a
/// `serde_json::Value`. Claims: the result depends on the text alone
/// (`json_parsed`), `None` standing for a parse error.
#[verifier::external_body]
pub fn parse_json(text: &str) -> (r: Option<JsonNode>)
    ensures
        r == json_parsed(text@),
{
    serde_json::from_str::<serde_json::Value>(text).ok().map(json_node)
}

/// The member `key` of an object: the first entry with that name.
pub open spec fn obj_get(entries: Seq<(String, JsonNode)>, key: Seq<char>) -> Option<JsonNode>
    decreases entries.len(),
{
    if entries.len() == 0 {
        None
    } else if entries[0].0@ == key {
        Some(entries[0].1)
    } else {
        obj_get(entries.skip(1), key)
    }
}

/// The text reached from `n` by following the member names of `path`;
/// `None` where a step finds no object or no such member, or the end is
/// not a text.
pub open spec fn node_at(n: JsonNode, path: Seq<Seq<char>>) -> Option<Seq<char>>
    decreases path.len(),
{
    if path.len() == 0 {
        match n {
            JsonNode::Str(s) => Some(s@),
            _ => None,
        }
    } else {
        match n {
            JsonNode::Obj(entries) => match obj_get(entries@, path[0]) {
                Some(child) => node_at(child, path.skip(1)),
                None => None,
            },
            _ => None,
        }
    }
}

/// The parts of a dotted key, as `str::split('.')` gives them: always at
/// least one, empty parts kept.
pub open spec fn split_dots(s: Seq<char>) -> Seq<Seq<char>>
    decreases s.len(),
{
    if s.len() == 0 {
        seq![Seq::empty()]
    } else {
        let p = split_dots(s.drop_last());
        if s.last() == '.' {
            p.push(Seq::empty())
        } else {
            p.drop_last().push(p.last().push(s.last()))
        }
    }
}

/// The views of a list of strings.
pub open spec fn strings_view(v: Seq<String>) -> Seq<Seq<char>> {
    v.map_values(|x: String| x@)
}

/// The text that `key` names in a locale file.
pub open spec fn lookup(root: JsonNode, key: Seq<char>) -> Option<Seq<char>> {
    node_at(root, split_dots(key))
}

/// The translation of `key`: the text of the current locale's file, else
/// the other locale's, else the key itself, so a label is never empty.
pub open spec fn translate(locale: Locale, ja: JsonNode, en: JsonNode, key: Seq<char>) -> Seq<char> {
    let (primary, fallback) = match locale {
        Locale::Ja => (ja, en),
        Locale::En => (en, ja),
    };
    match lookup(primary, key) {
        Some(t) => t,
        None => match lookup(fallback, key) {
            Some(t) => t,
            None => key,
        },
    }
}

/// Splits a dotted key at every '.'.
pub fn split_key(key: &str) -> (r: Vec<String>)
    ensures
        strings_view(r@) == split_dots(key@),
{
    let cs = chars_of(key);
    let mut parts: Vec<String> = Vec::new();
    let mut cur = String::new();
    let mut i: usize = 0;
    assert(key@.take(0) =~= Seq::<char>::empty());
    assert(strings_view(parts@).push(cur@) =~= split_dots(key@.take(0)));
    while i < cs.len()
        invariant
            cs@ == key@,
            i <= cs.len(),
            strings_view(parts@).push(cur@) == split_dots(key@.take(i as int)),
        decreases cs.len() - i,
    {
        let c = cs[i];
        let ghost before = strings_view(parts@).push(cur@);
        proof {
            assert(key@.take(i + 1).drop_last() =~= key@.take(i as int));
            assert(key@.take(i + 1).last() == c);
        }
        if c == '.' {
            let done = cur;
            parts.push(done);
            cur = String::new();
            assert(strings_view(parts@).push(cur@) =~= before.push(Seq::empty()));
        } else {
            push_char(&mut cur, c);
            assert(strings_view(parts@).push(cur@) =~= before.drop_last().push(before.last().push(c)));
        }
        i = i + 1;
    }
    assert(key@.take(cs.len() as int) =~= key@);
    parts.push(cur);
    assert(strings_view(parts@) =~= split_dots(key@));
    parts
}

/// The index of the member named `key`, the first such entry.
fn find_member(entries: &Vec<(String, JsonNode)>, key: &str) -> (r: Option<usize>)
    ensures
        match obj_get(entries@, key@) {
            Some(c) => r matches Some(j) && j < entries.len() && entries@[j as int].1 == c,
            None => r is None,
        },
{
    let mut i: usize = 0;
    assert(entries@.skip(0) =~= entries@);
    while i < entries.len()
        invariant
            i <= entries.len(),
            obj_get(entries@, key@) == obj_get(entries@.skip(i as int), key@),
        decreases entries.len() - i,
    {
        assert(entries@.skip(i as int).skip(1) =~= entries@.skip(i + 1));
        if str_eq(entries[i].0.as_str(), key) {
            return Some(i);
        }
        i = i + 1;
    }
    None
}

/// The text that `key` names under `root`.
fn lookup_in(root: &JsonNode, key: &str) -> (r: Option<String>)
    ensures
        match lookup(*root, key@) {
            Some(t) => r matches Some(s) && s@ == t,
            None => r is None,
        },
{
    let parts = split_key(key);
    let ghost path = strings_view(parts@);
    let mut node: &JsonNode = root;
    let mut i: usize = 0;
    assert(path.skip(0) =~= path);
    while i < parts.len()
        invariant
            i <= parts.len(),
            path == strings_view(parts@),
            path == split_dots(key@),
            node_at(*root, path) == node_at(*node, path.skip(i as int)),
        decreases parts.len() - i,
    {
        assert(path.skip(i as int).skip(1) =~= path.skip(i + 1));
        assert(path.skip(i as int)[0] == parts@[i as int]@);
        match node {
            JsonNode::Obj(entries) => {
                match find_member(entries, parts[i].as_str()) {
                    Some(j) => {
                        node = &entries[j].1;
                    },
                    None => {
                        return None;
                    },
                }
            },
            _ => {
                return None;
            },
        }
        i = i + 1;
    }
    assert(path.skip(parts.len() as int).len() == 0);
    match node {
        JsonNode::Str(s) => Some(s.clone()),
        _ => None,
    }
}

/// The UI catalogs (the two parsed locale files) and the current language.
pub struct I18n {
    locale: Locale,
    ja: JsonNode,
    en: JsonNode,
}

impl I18n {
    /// The current language.
    pub closed spec fn locale_of(&self) -> Locale {
        self.locale
    }

    /// The Japanese locale file.
    pub closed spec fn ja_of(&self) -> JsonNode {
        self.ja
    }

    /// The English locale file.
    pub closed spec fn en_of(&self) -> JsonNode {
        self.en
    }

    /// The parsed locale files in language `locale`.
    pub fn new(locale: Locale, ja: JsonNode, en: JsonNode) -> (r: Self)
        ensures
            r.locale_of() == locale,
            r.ja_of() == ja,
            r.en_of() == en,
    {
        I18n { locale, ja, en }
    }

    /// Parses the two locale files; `None` when either is not JSON.
    pub fn from_json(locale: Locale, ja: &str, en: &str) -> (r: Option<Self>)
        ensures
            r is Some <==> (json_parsed(ja@) is Some && json_parsed(en@) is Some),
            r matches Some(i) ==> {
                &&& i.locale_of() == locale
                &&& json_parsed(ja@) == Some(i.ja_of())
                &&& json_parsed(en@) == Some(i.en_of())
            },
    {
        let ja_node = parse_json(ja);
        let en_node = parse_json(en);
        match (ja_node, en_node) {
            (Some(j), Some(e)) => Some(I18n::new(locale, j, e)),
            _ => None,
        }
    }

    /// The current language.
    pub fn locale(&self) -> (r: Locale)
        ensures
            r == self.locale_of(),
    {
        self.locale
    }

    /// Switches the language; the catalogs stay.
    pub fn set_locale(&mut self, locale: Locale)
        ensures
            final(self).locale_of() == locale,
            final(self).ja_of() == old(self).ja_of(),
            final(self).en_of() == old(self).en_of(),
    {
        self.locale = locale;
    }

    /// Translates a dotted key. A key missing from the current language
    /// falls back to the other one, then to the key itself.
    pub fn t(&self, key: &str) -> (r: String)
        ensures
            r@ == translate(self.locale_of(), self.ja_of(), self.en_of(), key@),
    {
        let (primary, fallback) = match self.locale {
            Locale::Ja => (&self.ja, &self.en),
            Locale::En => (&self.en, &self.ja),
        };
        match lookup_in(primary, key) {
            Some(t) => t,
            None => match lookup_in(fallback, key) {
                Some(t) => t,
                None => String::from_str(key),
            },
        }
    }

    /// Translates a key and fills its `{{name}}` placeholders.
    pub fn tf(&self, key: &str, args: &[(&str, &str)]) -> (r: String)
        ensures
            r@ == interpolated(
                translate(self.locale_of(), self.ja_of(), self.en_of(), key@),
                args_view(args@),
            ),
    {
        let text = self.t(key);
        interpolate(text.as_str(), args)
    }
}

} // verus!
