//! The list of distinct save names, and the page that links each one to the
//! map viewer.

use crate::error::MapError;
use crate::text::{append_str, chars_of, owned, push_char};
use vstd::prelude::*;

verus! {

/// The extension of a save file.
pub const SAVE_EXTENSION: &'static str = ".sav";

/// The page up to the first entry.
pub const PAGE_HEAD: &'static str = r#"<!DOCTYPE html>
<html>
<head>
    <title>Satisfactory Saves</title>
    <style>
        body { font-family: Arial, sans-serif; max-width: 800px; margin: 2em auto; padding: 0 1em; }
        h1 { color: #333; }
        .save-list { list-style: none; padding: 0; }
        .save-list li { margin: 1em 0; }
        .save-list a {
            display: inline-block;
            padding: 0.5em 1em;
            background: #4CAF50;
            color: white;
            text-decoration: none;
            border-radius: 4px;
            transition: background 0.2s;
        }
        .save-list a:hover { background: #45a049; }
    </style>
</head>
<body>
    <h1>Available Satisfactory Saves</h1>
    <ul class="save-list">
"#;

/// The page after the last entry.
pub const PAGE_TAIL: &'static str = r#"    </ul>
</body>
</html>"#;

/// An entry up to the server's base URL.
pub const ENTRY_OPEN: &'static str =
    r#"        <li><a href="https://satisfactory-calculator.com/en/interactive-map?url="#;

/// Between the base URL and the name in the link.
pub const ENTRY_MAP_PATH: &'static str = "/map/";

/// Between the link and the text of an entry.
pub const ENTRY_MID: &'static str = r#"">"#;

/// The end of an entry.
pub const ENTRY_CLOSE: &'static str = "</a></li>\n";

/// A file name without its `.sav` extension, where it has one.
pub open spec fn stem_of(f: Seq<char>) -> Seq<char> {
    if f.len() >= 4 && f.subrange(f.len() - 4, f.len() as int) == SAVE_EXTENSION@ {
        f.subrange(0, f.len() - 4)
    } else {
        f
    }
}

/// `k` is where the name in `s` ends: at the first `_`, or at the end where
/// there is none.
pub open spec fn is_name_end(s: Seq<char>, k: int) -> bool {
    &&& 0 <= k <= s.len()
    &&& forall|i: int| 0 <= i < k ==> s[i] != '_'
    &&& k < s.len() ==> s[k] == '_'
}

/// The save name of a file: its stem up to the first `_`.
#[verifier::opaque]
pub open spec fn save_name_of(file: Seq<char>) -> Seq<char> {
    let s = stem_of(file);
    s.take(choose|k: int| is_name_end(s, k))
}

/// `names` lists each save name of the first `n` of `files` once, and
/// nothing else.
pub open spec fn is_catalog_of_first(files: Seq<String>, n: int, names: Seq<String>) -> bool {
    &&& forall|a: int, b: int| 0 <= a < b < names.len() ==> names[a]@ != names[b]@
    &&& forall|a: int|
        #![trigger names[a]]
        0 <= a < names.len() ==> exists|g: int|
            0 <= g < n && names[a]@ == #[trigger] save_name_of(files[g]@)
    &&& forall|g: int|
        #![trigger files[g]]
        0 <= g < n ==> exists|a: int|
            0 <= a < names.len() && #[trigger] names[a]@ == save_name_of(files[g]@)
}

/// `names` lists each save name of `files` once, and nothing else.
pub open spec fn is_catalog_of(files: Seq<String>, names: Seq<String>) -> bool {
    is_catalog_of_first(files, files.len() as int, names)
}

/// A character as it stands in HTML text or in a quoted attribute.
pub open spec fn escape_char(c: char) -> Seq<char> {
    if c == '&' {
        "&amp;"@
    } else if c == '<' {
        "&lt;"@
    } else if c == '>' {
        "&gt;"@
    } else if c == '"' {
        "&quot;"@
    } else if c == '\'' {
        "&#39;"@
    } else {
        seq![c]
    }
}

/// `s` with each character escaped for HTML.
pub open spec fn escape_html(s: Seq<char>) -> Seq<char>
    decreases s.len(),
{
    if s.len() == 0 {
        s
    } else {
        escape_html(s.drop_last()) + escape_char(s.last())
    }
}

/// The list item that links `name` to the map viewer.
pub open spec fn catalog_entry(base_url: Seq<char>, name: Seq<char>) -> Seq<char> {
    ENTRY_OPEN@ + base_url + ENTRY_MAP_PATH@ + escape_html(name) + ENTRY_MID@ + escape_html(name)
        + ENTRY_CLOSE@
}

/// The list items of `names`, in order.
pub open spec fn catalog_entries(base_url: Seq<char>, names: Seq<String>) -> Seq<char>
    decreases names.len(),
{
    if names.len() == 0 {
        Seq::empty()
    } else {
        catalog_entries(base_url, names.drop_last()) + catalog_entry(base_url, names.last()@)
    }
}

/// The whole catalog page for `names`.
pub open spec fn catalog_page(base_url: Seq<char>, names: Seq<String>) -> Seq<char> {
    PAGE_HEAD@ + catalog_entries(base_url, names) + PAGE_TAIL@
}

/// The pattern `<dir>/*.sav`: every save file of the directory.
pub open spec fn catalog_pattern_of(dir: Seq<char>) -> Seq<char> {
    dir + "/*.sav"@
}

proof fn lemma_name_end_unique(s: Seq<char>, k: int, l: int)
    requires
        is_name_end(s, k),
        is_name_end(s, l),
    ensures
        k == l,
{
    if k < l {
        assert(s[k] == '_');
    } else if l < k {
        assert(s[l] == '_');
    }
}

/// The pattern that the catalog walks the save directory with.
pub fn catalog_pattern(save_dir: &str) -> (r: String)
    ensures
        r@ == catalog_pattern_of(save_dir@),
{
    let mut s = owned(save_dir);
    append_str(&mut s, "/*.sav");
    s
}

/// The save name of a file name: what precedes the first `_` of its stem.
pub fn save_name(file_name: &str) -> (r: String)
    ensures
        r@ == save_name_of(file_name@),
{
    let v = chars_of(file_name);
    let n = v.len();
    let mut stem_len = n;
    if n >= 4 && v[n - 4] == '.' && v[n - 3] == 's' && v[n - 2] == 'a' && v[n - 1] == 'v' {
        stem_len = n - 4;
    }
    proof {
        reveal_strlit(".sav");
        if n >= 4 {
            let tail = v@.subrange(n - 4, n as int);
            if tail == SAVE_EXTENSION@ {
                assert(tail[0] == '.' && tail[1] == 's' && tail[2] == 'a' && tail[3] == 'v');
            } else {
                assert(!(v@[n - 4] == '.' && v@[n - 3] == 's' && v@[n - 2] == 'a' && v@[n - 1]
                    == 'v')) by {
                    if v@[n - 4] == '.' && v@[n - 3] == 's' && v@[n - 2] == 'a' && v@[n - 1]
                        == 'v' {
                        assert(tail =~= SAVE_EXTENSION@);
                    }
                }
            }
        }
    }
    let ghost stem = stem_of(file_name@);
    assert(stem =~= v@.take(stem_len as int));
    let mut r = String::new();
    let mut k: usize = 0;
    while k < stem_len && v[k] != '_'
        invariant
            k <= stem_len <= n == v.len(),
            stem == v@.take(stem_len as int),
            r@ == stem.take(k as int),
            forall|i: int| 0 <= i < k ==> stem[i] != '_',
        decreases stem_len - k,
    {
        push_char(&mut r, v[k]);
        k = k + 1;
        assert(r@ =~= stem.take(k as int));
    }
    proof {
        assert(is_name_end(stem, k as int));
        lemma_name_end_unique(stem, k as int, choose|l: int| is_name_end(stem, l));
        reveal(save_name_of);
    }
    r
}

proof fn lemma_catalog_step(
    files: Seq<String>,
    f: int,
    before: Seq<String>,
    after: Seq<String>,
    added: String,
)
    requires
        0 <= f < files.len(),
        added@ == save_name_of(files[f]@),
        is_catalog_of_first(files, f, before),
        (exists|b: int| 0 <= b < before.len() && #[trigger] before[b]@ == added@) ==> after
            == before,
        !(exists|b: int| 0 <= b < before.len() && #[trigger] before[b]@ == added@) ==> after
            == before.push(added),
    ensures
        is_catalog_of_first(files, f + 1, after),
{
    let name = added@;
    let seen = exists|b: int| 0 <= b < before.len() && #[trigger] before[b]@ == name;
    assert forall|a: int, b: int| 0 <= a < b < after.len() implies after[a]@ != after[b]@ by {
        if b >= before.len() {
            assert(after[a] == before[a]);
        }
    }
    assert forall|a: int| #![trigger after[a]] 0 <= a < after.len() implies exists|g: int|
        0 <= g < f + 1 && after[a]@ == #[trigger] save_name_of(files[g]@) by {
        if a < before.len() {
            assert(after[a] == before[a]);
            let g = choose|g: int| 0 <= g < f && before[a]@ == #[trigger] save_name_of(files[g]@);
            assert(0 <= g < f + 1 && after[a]@ == save_name_of(files[g]@));
        } else {
            assert(after[a]@ == save_name_of(files[f]@));
        }
    }
    assert forall|g: int| #![trigger files[g]] 0 <= g < f + 1 implies exists|a: int|
        0 <= a < after.len() && #[trigger] after[a]@ == save_name_of(files[g]@) by {
        if g < f {
            let a = choose|a: int|
                0 <= a < before.len() && #[trigger] before[a]@ == save_name_of(files[g]@);
            assert(after[a] == before[a]);
        } else if seen {
            let b = choose|b: int| 0 <= b < before.len() && #[trigger] before[b]@ == name;
            assert(after[b] == before[b]);
        } else {
            assert(after[before.len() as int]@ == name);
        }
    }
}

/// Whether `names` holds `name`.
fn holds_name(names: &Vec<String>, name: &String) -> (r: bool)
    ensures
        r <==> exists|b: int| 0 <= b < names@.len() && #[trigger] names@[b]@ == name@,
{
    let mut seen = false;
    for a in 0..names.len()
        invariant
            seen <==> exists|b: int| 0 <= b < a && #[trigger] names@[b]@ == name@,
    {
        if names[a] == *name {
            seen = true;
        }
    }
    seen
}

/// Each save name of `file_names` once.
pub fn catalog_names(file_names: &Vec<String>) -> (r: Vec<String>)
    ensures
        is_catalog_of(file_names@, r@),
{
    let mut r: Vec<String> = Vec::new();
    let mut f: usize = 0;
    while f < file_names.len()
        invariant
            f <= file_names.len(),
            is_catalog_of_first(file_names@, f as int, r@),
        decreases file_names.len() - f,
    {
        let name = save_name(file_names[f].as_str());
        let ghost before = r@;
        let ghost added = name;
        let seen = holds_name(&r, &name);
        if !seen {
            r.push(name);
        }
        proof {
            lemma_catalog_step(file_names@, f as int, before, r@, added);
        }
        f = f + 1;
    }
    r
}

/// `s` escaped for HTML text and quoted attributes.
pub fn html_escape(s: &str) -> (r: String)
    ensures
        r@ == escape_html(s@),
{
    let v = chars_of(s);
    let mut r = String::new();
    for i in 0..v.len()
        invariant
            v@ == s@,
            r@ == escape_html(v@.take(i as int)),
    {
        let c = v[i];
        if c == '&' {
            append_str(&mut r, "&amp;");
        } else if c == '<' {
            append_str(&mut r, "&lt;");
        } else if c == '>' {
            append_str(&mut r, "&gt;");
        } else if c == '"' {
            append_str(&mut r, "&quot;");
        } else if c == '\'' {
            append_str(&mut r, "&#39;");
        } else {
            push_char(&mut r, c);
        }
        assert(v@.take(i + 1).drop_last() =~= v@.take(i as int));
    }
    assert(v@.take(v.len() as int) =~= v@);
    r
}

/// The page that lists `names`, each linked to the map viewer through
/// `base_url`.
pub fn render_catalog(base_url: &str, names: &Vec<String>) -> (r: String)
    ensures
        r@ == catalog_page(base_url@, names@),
{
    let mut r = owned(PAGE_HEAD);
    for i in 0..names.len()
        invariant
            r@ == PAGE_HEAD@ + catalog_entries(base_url@, names@.take(i as int)),
    {
        let escaped = html_escape(names[i].as_str());
        append_str(&mut r, ENTRY_OPEN);
        append_str(&mut r, base_url);
        append_str(&mut r, ENTRY_MAP_PATH);
        append_str(&mut r, escaped.as_str());
        append_str(&mut r, ENTRY_MID);
        append_str(&mut r, escaped.as_str());
        append_str(&mut r, ENTRY_CLOSE);
        assert(names@.take(i + 1).drop_last() =~= names@.take(i as int));
    }
    assert(names@.take(names.len() as int) =~= names@);
    append_str(&mut r, PAGE_TAIL);
    r
}

/// The catalog page of the save files named `file_names`: each distinct save
/// name linked once, in an order that the listing leaves open.
pub fn map_index(base_url: &str, file_names: &Vec<String>) -> (r: String)
    ensures
        exists|names: Seq<String>|
            is_catalog_of(file_names@, names) && r@ == catalog_page(base_url@, names),
{
    let names = catalog_names(file_names);
    render_catalog(base_url, &names)
}

} // verus!
