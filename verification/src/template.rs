//! Format strings with named placeholders, and their substitution.
//!
//! A placeholder is an opening brace, one or more name characters (ASCII
//! letters, digits, `_` and `-`) and a closing brace. All other text,
//! braces included, stands for itself.

use vstd::hash_map::StringHashMap;
use vstd::prelude::*;
use vstd::string::*;

verus! {

/// Whether `c` may stand in a placeholder's name.
pub open spec fn is_name_char(c: char) -> bool {
    ||| 'a' <= c <= 'z'
    ||| 'A' <= c <= 'Z'
    ||| '0' <= c <= '9'
    ||| c == '_'
    ||| c == '-'
}

/// The number of consecutive name characters of `s` from position `i` on.
pub open spec fn name_len(s: Seq<char>, i: int) -> nat
    decreases s.len() - i,
{
    if 0 <= i < s.len() && is_name_char(s[i]) {
        1 + name_len(s, i + 1)
    } else {
        0
    }
}

/// The length of the placeholder that starts at position `i` of `s`, braces
/// included; 0 where none starts there.
pub open spec fn placeholder_len(s: Seq<char>, i: int) -> nat {
    let n = name_len(s, i + 1);
    if 0 <= i < s.len() && s[i] == '{' && n > 0 && i + 1 + n < s.len() && s[i + 1 + n] == '}' {
        n + 2
    } else {
        0
    }
}

/// Puts `prefix` before a substitution result, keeping a failure as it is.
pub open spec fn prefixed(prefix: Seq<char>, rest: Result<Seq<char>, Seq<char>>) -> Result<
    Seq<char>,
    Seq<char>,
> {
    match rest {
        Ok(text) => Ok(prefix + text),
        Err(key) => Err(key),
    }
}

/// The text of `s` from position `i` on with every placeholder replaced by
/// the value that `values` holds for it (the key is the placeholder with its
/// braces). Fails with the leftmost placeholder that `values` does not hold.
pub open spec fn expand_from(s: Seq<char>, i: int, values: Map<Seq<char>, Seq<char>>) -> Result<
    Seq<char>,
    Seq<char>,
>
    decreases s.len() - i,
{
    if i < 0 || i >= s.len() {
        Ok(Seq::empty())
    } else {
        let n = placeholder_len(s, i);
        if n > 0 {
            let key = s.subrange(i, i + n);
            if values.contains_key(key) {
                prefixed(values[key], expand_from(s, i + n, values))
            } else {
                Err(key)
            }
        } else {
            prefixed(seq![s[i]], expand_from(s, i + 1, values))
        }
    }
}

/// The whole of `s` with its placeholders replaced by their values.
pub open spec fn expand(s: Seq<char>, values: Map<Seq<char>, Seq<char>>) -> Result<
    Seq<char>,
    Seq<char>,
> {
    expand_from(s, 0, values)
}

/// The placeholders of `s` from position `i` on, braces included, in order.
pub open spec fn placeholders_from(s: Seq<char>, i: int) -> Seq<Seq<char>>
    decreases s.len() - i,
{
    if i < 0 || i >= s.len() {
        Seq::empty()
    } else {
        let n = placeholder_len(s, i);
        if n > 0 {
            seq![s.subrange(i, i + n)] + placeholders_from(s, i + n)
        } else {
            placeholders_from(s, i + 1)
        }
    }
}

/// The placeholders of `s`, braces included, in order.
pub open spec fn placeholders(s: Seq<char>) -> Seq<Seq<char>> {
    placeholders_from(s, 0)
}

/// The texts that a map of strings holds, key by key.
pub open spec fn text_values(values: Map<Seq<char>, String>) -> Map<Seq<char>, Seq<char>> {
    values.map_values(|v: String| v@)
}

fn name_char(c: char) -> (b: bool)
    ensures
        b == is_name_char(c),
{
    ('a' <= c && c <= 'z') || ('A' <= c && c <= 'Z') || ('0' <= c && c <= '9') || c == '_' || c
        == '-'
}

/// The length of the placeholder that starts at position `i`, or 0.
fn placeholder_at(chars: &Vec<char>, i: usize) -> (n: usize)
    requires
        i < chars.len(),
    ensures
        n == placeholder_len(chars@, i as int),
        i + n <= chars.len(),
{
    if chars[i] != '{' {
        return 0;
    }
    let mut j: usize = i + 1;
    while j < chars.len() && name_char(chars[j])
        invariant
            i < j <= chars.len(),
            name_len(chars@, i + 1) == (j - (i + 1)) + name_len(chars@, j as int),
        decreases chars.len() - j,
    {
        j += 1;
    }
    if j > i + 1 && j < chars.len() && chars[j] == '}' {
        j - i + 1
    } else {
        0
    }
}

/// A format string could not be rendered: it holds a placeholder for which
/// no value was given.
#[derive(Debug)]
pub struct TemplateError {
    /// The placeholder, braces included.
    pub placeholder: String,
}

impl View for TemplateError {
    type V = Seq<char>;

    open spec fn view(&self) -> Seq<char> {
        self.placeholder@
    }
}

/// A format string, ready to be rendered.
#[derive(Debug)]
pub struct FormatTemplate {
    source: String,
    chars: Vec<char>,
}

impl View for FormatTemplate {
    type V = Seq<char>;

    closed spec fn view(&self) -> Seq<char> {
        self.source@
    }
}

impl FormatTemplate {
    /// The characters kept for scanning are those of the format string.
    pub closed spec fn wf(&self) -> bool {
        self.chars@ == self.source@
    }

    /// Takes a format string as a template. Every string is one: text that is
    /// no placeholder stands for itself.
    pub fn from_string(s: &str) -> (template: FormatTemplate)
        ensures
            template.wf(),
            template@ == s@,
    {
        FormatTemplate { source: s.to_owned(), chars: crate::strings::chars_of(s) }
    }

    /// Replaces every placeholder by the value that `values` holds for it,
    /// looked up by the placeholder with its braces. Fails on the leftmost
    /// placeholder without a value.
    pub fn render_static_str(&self, values: &StringHashMap<String>) -> (r: Result<
        String,
        TemplateError,
    >)
        requires
            self.wf(),
        ensures
            match r {
                Ok(text) => expand(self@, text_values(values@)) == Ok::<Seq<char>, Seq<char>>(
                    text@,
                ),
                Err(e) => expand(self@, text_values(values@)) == Err::<Seq<char>, Seq<char>>(e@),
            },
    {
        let ghost s = self.source@;
        let ghost v = text_values(values@);
        let n = self.chars.len();
        let mut out = String::new();
        let mut lit: usize = 0;
        let mut i: usize = 0;
        assert(out@ + s.subrange(0, 0) =~= Seq::<char>::empty());
        assert(prefixed(Seq::<char>::empty(), expand_from(s, 0, v)) == expand_from(s, 0, v)) by {
            if let Ok(text) = expand_from(s, 0, v) {
                assert(Seq::<char>::empty() + text =~= text);
            }
        }
        while i < n
            invariant
                self.wf(),
                s == self.source@,
                v == text_values(values@),
                n == s.len(),
                lit <= i <= n,
                expand(s, v) == prefixed(out@ + s.subrange(lit as int, i as int), expand_from(s, i as int, v)),
            decreases n - i,
        {
            let ghost done = out@ + s.subrange(lit as int, i as int);
            let len = placeholder_at(&self.chars, i);
            if len > 0 {
                out.append(self.source.as_str().substring_char(lit, i));
                let key = self.source.as_str().substring_char(i, i + len);
                assert(v.contains_key(key@) == values@.contains_key(key@));
                match values.get(key) {
                    Some(value) => {
                        out.append(value.as_str());
                        proof {
                            assert(v[key@] == value@);
                            let rest = expand_from(s, i + len, v);
                            assert(expand_from(s, i as int, v) == prefixed(value@, rest));
                            if let Ok(text) = rest {
                                assert(done + (value@ + text) =~= (done + value@) + text);
                            }
                            assert(out@ + s.subrange(i + len, i + len) =~= done + value@);
                        }
                    },
                    None => {
                        return Err(TemplateError { placeholder: key.to_owned() });
                    },
                }
                i = i + len;
                lit = i;
            } else {
                proof {
                    let rest = expand_from(s, i + 1, v);
                    assert(expand_from(s, i as int, v) == prefixed(seq![s[i as int]], rest));
                    if let Ok(text) = rest {
                        assert(done + (seq![s[i as int]] + text) =~= (done + seq![s[i as int]])
                            + text);
                    }
                    assert(out@ + s.subrange(lit as int, i + 1) =~= done + seq![s[i as int]]);
                }
                i += 1;
            }
        }
        let ghost done = out@ + s.subrange(lit as int, n as int);
        out.append(self.source.as_str().substring_char(lit, n));
        assert(done + Seq::<char>::empty() =~= done);
        Ok(out)
    }
}

/// Substitution succeeds exactly where every placeholder has a value, and
/// where it fails, it fails on the first placeholder that has none.
pub proof fn lemma_expand_needs_every_placeholder(
    s: Seq<char>,
    i: int,
    values: Map<Seq<char>, Seq<char>>,
)
    ensures
        expand_from(s, i, values) is Ok <==> forall|j: int|
            0 <= j < placeholders_from(s, i).len() ==> values.contains_key(
                #[trigger] placeholders_from(s, i)[j],
            ),
        expand_from(s, i, values) is Err ==> exists|j: int|
            {
                &&& 0 <= j < placeholders_from(s, i).len()
                &&& #[trigger] placeholders_from(s, i)[j] == expand_from(s, i, values)->Err_0
                &&& !values.contains_key(placeholders_from(s, i)[j])
                &&& forall|k: int|
                    0 <= k < j ==> values.contains_key(#[trigger] placeholders_from(s, i)[k])
            },
    decreases s.len() - i,
{
    let all = placeholders_from(s, i);
    if 0 <= i < s.len() {
        let n = placeholder_len(s, i);
        if n > 0 {
            let key = s.subrange(i, i + n);
            let later = placeholders_from(s, i + n);
            lemma_expand_needs_every_placeholder(s, i + n, values);
            assert(all[0] == key);
            assert forall|j: int| 0 <= j < later.len() implies later[j] == all[j + 1] by {}
            if values.contains_key(key) {
                if expand_from(s, i, values) is Ok {
                    assert forall|j: int| 0 <= j < all.len() implies values.contains_key(
                        #[trigger] all[j],
                    ) by {
                        if j > 0 {
                            assert(all[j] == later[j - 1]);
                        }
                    }
                } else {
                    let j = choose|j: int|
                        {
                            &&& 0 <= j < later.len()
                            &&& #[trigger] later[j] == expand_from(s, i + n, values)->Err_0
                            &&& !values.contains_key(later[j])
                            &&& forall|k: int|
                                0 <= k < j ==> values.contains_key(#[trigger] later[k])
                        };
                    assert(all[j + 1] == later[j]);
                    assert forall|k: int| 0 <= k < j + 1 implies values.contains_key(
                        #[trigger] all[k],
                    ) by {
                        if k > 0 {
                            assert(all[k] == later[k - 1]);
                        }
                    }
                }
            }
        } else {
            lemma_expand_needs_every_placeholder(s, i + 1, values);
        }
    }
}

/// Whether substitution succeeds depends only on which placeholders have a
/// value, not on the values: two maps with the same keys fail on the same
/// placeholder or succeed both.
pub proof fn lemma_expand_depends_on_keys(
    s: Seq<char>,
    i: int,
    v1: Map<Seq<char>, Seq<char>>,
    v2: Map<Seq<char>, Seq<char>>,
)
    requires
        v1.dom() == v2.dom(),
    ensures
        expand_from(s, i, v1) is Ok <==> expand_from(s, i, v2) is Ok,
        expand_from(s, i, v1) is Err ==> expand_from(s, i, v2) == Err::<Seq<char>, Seq<char>>(
            expand_from(s, i, v1)->Err_0,
        ),
    decreases s.len() - i,
{
    if 0 <= i < s.len() {
        let n = placeholder_len(s, i);
        if n > 0 {
            let key = s.subrange(i, i + n);
            assert(v1.contains_key(key) == v2.dom().contains(key));
            lemma_expand_depends_on_keys(s, i + n, v1, v2);
        } else {
            lemma_expand_depends_on_keys(s, i + 1, v1, v2);
        }
    }
}

} // verus!
