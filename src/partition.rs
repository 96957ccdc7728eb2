//! Splitting a rendered document into one Java source file per top-level
//! declaration.

use vstd::prelude::*;
use vstd::string::StringExecFns;
use vstd::string::StrSliceExecFns;
use crate::text::{chars_of, join2, join3, push_char};

verus! {

/// Whether a character is alphanumeric, as `char::is_alphanumeric` decides.
pub uninterp spec fn alphanumeric(c: char) -> bool;

/// Relies on `char::is_alphanumeric`: alphabetic or numeric by Unicode.
#[verifier::external_body]
fn is_alphanumeric(c: char) -> (r: bool)
    ensures
        r == alphanumeric(c),
{
    c.is_alphanumeric()
}

/// Unicode white space.
pub open spec fn space_char(c: char) -> bool {
    ('\u{9}' <= c && c <= '\u{d}') || c == ' ' || c == '\u{85}' || c == '\u{a0}' || c
        == '\u{1680}' || ('\u{2000}' <= c && c <= '\u{200a}') || c == '\u{2028}' || c == '\u{2029}'
        || c == '\u{202f}' || c == '\u{205f}' || c == '\u{3000}'
}

/// A character of a declared name: `_` or an alphanumeric character. Marks
/// and connector punctuation other than `_` end a name.
pub open spec fn word_char(c: char) -> bool {
    c == '_' || alphanumeric(c)
}

pub fn is_space(c: char) -> (r: bool)
    ensures
        r == space_char(c),
{
    ('\u{9}' <= c && c <= '\u{d}') || c == ' ' || c == '\u{85}' || c == '\u{a0}' || c
        == '\u{1680}' || ('\u{2000}' <= c && c <= '\u{200a}') || c == '\u{2028}' || c == '\u{2029}'
        || c == '\u{202f}' || c == '\u{205f}' || c == '\u{3000}'
}

fn is_word(c: char) -> (r: bool)
    ensures
        r == word_char(c),
{
    c == '_' || is_alphanumeric(c)
}

/// `w` stands at `p`, followed by one white space character.
pub open spec fn word_at(s: Seq<char>, p: int, w: Seq<char>) -> bool {
    0 <= p && p + w.len() < s.len() && s.subrange(p, p + w.len()) == w && space_char(
        s[p + w.len()],
    )
}

/// Past the optional modifier `w` at `p`.
pub open spec fn skip_modifier(s: Seq<char>, p: int, w: Seq<char>) -> int {
    if word_at(s, p, w) {
        p + w.len() + 1
    } else {
        p
    }
}

/// Past the modifiers that may open a declaration, each at most once and in
/// this order: `public final sealed abstract static`.
pub open spec fn after_modifiers(s: Seq<char>, p: int) -> int {
    let a = skip_modifier(s, p, "public"@);
    let b = skip_modifier(s, a, "final"@);
    let c = skip_modifier(s, b, "sealed"@);
    let d = skip_modifier(s, c, "abstract"@);
    skip_modifier(s, d, "static"@)
}

/// Past a declaration keyword at `q`, if one stands there.
pub open spec fn after_keyword(s: Seq<char>, q: int) -> Option<int> {
    if word_at(s, q, "class"@) {
        Some(q + 6)
    } else if word_at(s, q, "interface"@) {
        Some(q + 10)
    } else if word_at(s, q, "enum"@) {
        Some(q + 5)
    } else if word_at(s, q, "record"@) {
        Some(q + 7)
    } else {
        None
    }
}

/// The end of the run of name characters that starts at `q`.
pub open spec fn word_end(s: Seq<char>, q: int) -> int
    decreases s.len() - q,
{
    if 0 <= q < s.len() && word_char(s[q]) {
        word_end(s, q + 1)
    } else {
        q
    }
}

/// The name declared by a declaration that starts at `p`, if one does.
pub open spec fn decl_at(s: Seq<char>, p: int) -> Option<Seq<char>> {
    match after_keyword(s, after_modifiers(s, p)) {
        Some(q) => if word_end(s, q) > q {
            Some(s.subrange(q, word_end(s, q)))
        } else {
            None
        },
        None => None,
    }
}

/// The name of the first declaration that starts a line at or after `p`.
pub open spec fn first_decl_from(s: Seq<char>, p: int) -> Option<Seq<char>>
    decreases s.len() + 1 - p,
{
    if p < 0 || p > s.len() {
        None
    } else if (p == 0 || s[p - 1] == '\n') && decl_at(s, p) is Some {
        decl_at(s, p)
    } else {
        first_decl_from(s, p + 1)
    }
}

/// The name of the first declaration of a chunk.
pub open spec fn first_decl(s: Seq<char>) -> Option<Seq<char>> {
    first_decl_from(s, 0)
}

/// `pat` occurs at `j`.
pub open spec fn occurs_at(s: Seq<char>, pat: Seq<char>, j: int) -> bool {
    0 <= j && j + pat.len() <= s.len() && s.subrange(j, j + pat.len()) == pat
}

/// The pieces of `s` between occurrences of `pat`, left to right, for the
/// piece that starts at `start` and is being scanned at `j`.
pub open spec fn pieces_from(s: Seq<char>, pat: Seq<char>, start: int, j: int) -> Seq<Seq<char>>
    decreases s.len() - j,
{
    if pat.len() == 0 || j < start || j + pat.len() > s.len() {
        seq![s.subrange(start, s.len() as int)]
    } else if occurs_at(s, pat, j) {
        seq![s.subrange(start, j)] + pieces_from(s, pat, j + pat.len(), j + pat.len())
    } else {
        pieces_from(s, pat, start, j + 1)
    }
}

/// The pieces of `s` between occurrences of a non-empty `pat`.
pub open spec fn split_pieces(s: Seq<char>, pat: Seq<char>) -> Seq<Seq<char>> {
    pieces_from(s, pat, 0, 0)
}

/// One Java source file: the class it declares and its text.
pub struct SourceFile {
    pub class_name: String,
    pub text: String,
}

impl SourceFile {
    /// The name of the file: the class name with `.java`.
    pub fn file_name(&self) -> (r: String)
        ensures
            r@ == self.class_name@ + ".java"@,
    {
        join2(self.class_name.as_str(), ".java")
    }
}

/// The files of the pieces that declare something, each the header line,
/// a newline and the piece.
pub open spec fn files_of(pieces: Seq<Seq<char>>, header: Seq<char>) -> Seq<(Seq<char>, Seq<char>)>
    decreases pieces.len(),
{
    if pieces.len() == 0 {
        Seq::empty()
    } else {
        let prev = files_of(pieces.drop_last(), header);
        match first_decl(pieces.last()) {
            Some(n) => prev.push((n, header + "\n"@ + pieces.last())),
            None => prev,
        }
    }
}

/// The pieces after the first (the preamble) that declare nothing.
pub open spec fn misses_of(pieces: Seq<Seq<char>>) -> Seq<Seq<char>>
    decreases pieces.len(),
{
    if pieces.len() <= 1 {
        Seq::empty()
    } else {
        let prev = misses_of(pieces.drop_last());
        if first_decl(pieces.last()) is None {
            prev.push(pieces.last())
        } else {
            prev
        }
    }
}

/// The split of a document: its source files, and the pieces after the
/// header that declared nothing and were left out.
pub struct Partition {
    pub files: Vec<SourceFile>,
    pub unmatched: Vec<String>,
}

pub open spec fn file_views(v: Seq<SourceFile>) -> Seq<(Seq<char>, Seq<char>)> {
    v.map_values(|f: SourceFile| (f.class_name@, f.text@))
}

pub open spec fn string_views(v: Seq<String>) -> Seq<Seq<char>> {
    v.map_values(|s: String| s@)
}

/// The name of a declaration that starts at `p`, given the chunk's characters.
fn decl_name_at(cs: &Vec<char>, p: usize) -> (r: Option<(usize, usize)>)
    requires
        p <= cs@.len(),
    ensures
        r is None ==> decl_at(cs@, p as int) is None,
        r matches Some(b) ==> b.0 < b.1 <= cs@.len() && decl_at(cs@, p as int) == Some(
            cs@.subrange(b.0 as int, b.1 as int),
        ),
{
    let ghost s = cs@;
    let len = cs.len();
    proof {
        reveal_strlit("class");
        reveal_strlit("interface");
        reveal_strlit("enum");
        reveal_strlit("record");
    }
    let a = skip_word(cs, p, "public");
    let b = skip_word(cs, a, "final");
    let c = skip_word(cs, b, "sealed");
    let d = skip_word(cs, c, "abstract");
    let q = skip_word(cs, d, "static");
    assert(q == after_modifiers(s, p as int));
    let k = if word_matches(cs, q, "class") {
        q + 6
    } else if word_matches(cs, q, "interface") {
        q + 10
    } else if word_matches(cs, q, "enum") {
        q + 5
    } else if word_matches(cs, q, "record") {
        q + 7
    } else {
        return None;
    };
    assert(after_keyword(s, q as int) == Some(k as int));
    let mut e = k;
    while e < cs.len() && is_word(cs[e])
        invariant
            s == cs@,
            k <= e <= cs@.len(),
            word_end(s, k as int) == word_end(s, e as int),
        decreases cs@.len() - e,
    {
        e = e + 1;
    }
    if e > k {
        Some((k, e))
    } else {
        None
    }
}

/// Whether `w` followed by white space stands at `p`.
fn word_matches(cs: &Vec<char>, p: usize, w: &str) -> (r: bool)
    requires
        p <= cs@.len(),
    ensures
        r == word_at(cs@, p as int, w@),
{
    let wc = chars_of(w);
    let n = wc.len();
    let len = cs.len();
    if n >= len - p {
        return false;
    }
    let mut i: usize = 0;
    while i < n
        invariant
            wc@ == w@,
            n == wc@.len(),
            len == cs@.len(),
            p + n < len,
            i <= n,
            forall|j: int| 0 <= j < i ==> cs@[p + j] == wc@[j],
        decreases n - i,
    {
        if cs[p + i] != wc[i] {
            proof {
                assert(cs@.subrange(p as int, p + n)[i as int] != w@[i as int]);
            }
            return false;
        }
        i = i + 1;
    }
    proof {
        assert(cs@.subrange(p as int, p + n) =~= w@);
    }
    is_space(cs[p + n])
}

fn skip_word(cs: &Vec<char>, p: usize, w: &str) -> (r: usize)
    requires
        p <= cs@.len(),
    ensures
        r as int == skip_modifier(cs@, p as int, w@),
        r <= cs@.len(),
{
    if word_matches(cs, p, w) {
        let n = w.unicode_len();
        let len = cs.len();
        assert(p + n < len);
        p + n + 1
    } else {
        p
    }
}

/// The name of the first declaration of a chunk, if it has one.
pub fn first_declaration(chunk: &str) -> (r: Option<String>)
    ensures
        r is None ==> first_decl(chunk@) is None,
        r matches Some(n) ==> first_decl(chunk@) == Some(n@),
{
    let cs = chars_of(chunk);
    let mut p: usize = 0;
    while p < cs.len()
        invariant
            cs@ == chunk@,
            p <= cs@.len(),
            first_decl(chunk@) == first_decl_from(chunk@, p as int),
        decreases cs@.len() + 1 - p,
    {
        if p == 0 || cs[p - 1] == '\n' {
            match decl_name_at(&cs, p) {
                Some((b, e)) => {
                    return Some(String::from_str(chunk.substring_char(b, e)));
                },
                None => {},
            }
        }
        p = p + 1;
    }
    proof {
        let n = chunk@.len() as int;
        assert(after_modifiers(chunk@, n) == n);
        assert(decl_at(chunk@, n) is None);
        assert(first_decl_from(chunk@, n + 1) is None);
    }
    None
}

proof fn lemma_pieces_step(s: Seq<char>, pat: Seq<char>, start: int, j: int)
    requires
        pat.len() > 0,
        0 <= start <= j,
        j + pat.len() <= s.len(),
        !occurs_at(s, pat, j),
    ensures
        pieces_from(s, pat, start, j) == pieces_from(s, pat, start, j + 1),
{
}

/// The pieces of `s` between the occurrences of `pat`, as `str::split` gives them.
pub fn split_on(s: &str, pat: &str) -> (r: Vec<String>)
    requires
        pat@.len() > 0,
    ensures
        string_views(r@) == split_pieces(s@, pat@),
{
    let cs = chars_of(s);
    let ps = chars_of(pat);
    let n = cs.len();
    let m = ps.len();
    let mut out: Vec<String> = Vec::new();
    let mut start: usize = 0;
    let mut j: usize = 0;
    while m <= n - j
        invariant
            cs@ == s@,
            ps@ == pat@,
            n == cs@.len(),
            m == ps@.len(),
            m > 0,
            start <= j <= n,
            split_pieces(s@, pat@) == string_views(out@) + pieces_from(
                s@,
                pat@,
                start as int,
                j as int,
            ),
        decreases n - j,
    {
        let mut k: usize = 0;
        while k < m && cs[j + k] == ps[k]
            invariant
                j + m <= n,
                cs@ == s@,
                ps@ == pat@,
                m == ps@.len(),
                n == cs@.len(),
                k <= m,
                forall|i: int| 0 <= i < k ==> cs@[j + i] == ps@[i],
            decreases m - k,
        {
            k = k + 1;
        }
        if k == m {
            proof {
                assert(s@.subrange(j as int, j + m) =~= pat@);
            }
            let piece = String::from_str(s.substring_char(start, j));
            let ghost prev = out@;
            out.push(piece);
            proof {
                assert(string_views(out@) =~= string_views(prev).push(piece@));
                assert(string_views(out@) + pieces_from(s@, pat@, (j + m) as int, (j + m) as int)
                    =~= string_views(prev) + pieces_from(s@, pat@, start as int, j as int));
            }
            j = j + m;
            start = j;
        } else {
            proof {
                assert(s@.subrange(j as int, j + m)[k as int] != pat@[k as int]);
                lemma_pieces_step(s@, pat@, start as int, j as int);
            }
            j = j + 1;
        }
    }
    let last = String::from_str(s.substring_char(start, n));
    let ghost prev = out@;
    out.push(last);
    proof {
        assert(string_views(out@) =~= string_views(prev).push(last@));
        assert(pieces_from(s@, pat@, start as int, j as int) == seq![last@]);
        assert(string_views(out@) =~= string_views(prev) + seq![last@]);
    }
    out
}

/// The line that opens every file of a package.
pub open spec fn package_line_of(package: Seq<char>) -> Seq<char> {
    "package "@ + package + ";"@
}

/// Splits a rendered document on its package line and keeps one file per
/// piece that declares a class, interface, enum or record, named after the
/// first such declaration; each file is the package line, a newline and the
/// piece. Pieces after the first that declare nothing are handed back apart.
pub fn partition_document(document: &str, package_name: &str) -> (r: Partition)
    ensures
        file_views(r.files@) == files_of(
            split_pieces(document@, package_line_of(package_name@)),
            package_line_of(package_name@),
        ),
        string_views(r.unmatched@) == misses_of(
            split_pieces(document@, package_line_of(package_name@)),
        ),
{
    proof {
        reveal_strlit("package ");
    }
    let header = join3("package ", package_name, ";");
    let pieces = split_on(document, header.as_str());
    let ghost ps = string_views(pieces@);
    let mut files: Vec<SourceFile> = Vec::new();
    let mut unmatched: Vec<String> = Vec::new();
    let mut i: usize = 0;
    while i < pieces.len()
        invariant
            ps == string_views(pieces@),
            ps.len() == pieces@.len(),
            i <= pieces@.len(),
            file_views(files@) == files_of(ps.take(i as int), header@),
            string_views(unmatched@) == misses_of(ps.take(i as int)),
        decreases pieces@.len() - i,
    {
        proof {
            assert(ps.take(i + 1).drop_last() == ps.take(i as int));
            assert(ps.take(i + 1).last() == pieces@[i as int]@);
        }
        let piece = &pieces[i];
        match first_declaration(piece.as_str()) {
            Some(name) => {
                let text = join3(header.as_str(), "\n", piece.as_str());
                let ghost prev = files@;
                let f = SourceFile { class_name: name, text };
                files.push(f);
                proof {
                    assert(file_views(files@) =~= file_views(prev).push((f.class_name@, f.text@)));
                }
            },
            None => {
                if i > 0 {
                    let ghost prev = unmatched@;
                    let c = piece.clone();
                    unmatched.push(c);
                    proof {
                        assert(string_views(unmatched@) =~= string_views(prev).push(c@));
                    }
                }
            },
        }
        i = i + 1;
    }
    proof {
        assert(ps.take(i as int) == ps);
    }
    Partition { files, unmatched }
}

/// The directory of a package: its dots made slashes.
pub open spec fn package_dir_of(package: Seq<char>) -> Seq<char> {
    package.map_values(|c: char| if c == '.' { '/' } else { c })
}

/// The directory, relative to the output root, where a package's files go.
pub fn package_directory(package_name: &str) -> (r: String)
    ensures
        r@ == package_dir_of(package_name@),
{
    let cs = chars_of(package_name);
    let mut out = String::new();
    let mut i: usize = 0;
    while i < cs.len()
        invariant
            cs@ == package_name@,
            i <= cs@.len(),
            out@ == package_dir_of(package_name@.take(i as int)),
        decreases cs@.len() - i,
    {
        let c = cs[i];
        if c == '.' {
            push_char(&mut out, '/');
        } else {
            push_char(&mut out, c);
        }
        proof {
            assert(package_dir_of(package_name@.take(i + 1)) =~= package_dir_of(
                package_name@.take(i as int),
            ).push(out@.last()));
        }
        i = i + 1;
    }
    proof {
        assert(package_name@.take(i as int) == package_name@);
    }
    out
}

/// Every file of a partition starts with the package line and a newline,
/// and pieces none of which declares anything give no file at all.
pub proof fn lemma_files_of(pieces: Seq<Seq<char>>, header: Seq<char>)
    ensures
        forall|k: int|
            0 <= k < files_of(pieces, header).len() ==> (#[trigger] files_of(pieces, header)[k]).1.subrange(
                0,
                header.len() + 1 as int,
            ) == header + "\n"@,
        (forall|i: int| 0 <= i < pieces.len() ==> first_decl(#[trigger] pieces[i]) is None)
            ==> files_of(pieces, header).len() == 0,
    decreases pieces.len(),
{
    reveal_strlit("\n");
    if pieces.len() > 0 {
        let d = pieces.drop_last();
        lemma_files_of(d, header);
        let prev = files_of(d, header);
        if let Some(n) = first_decl(pieces.last()) {
            let text = header + "\n"@ + pieces.last();
            assert(text.subrange(0, header.len() + 1 as int) =~= header + "\n"@);
        }
        if forall|i: int| 0 <= i < pieces.len() ==> first_decl(#[trigger] pieces[i]) is None {
            assert forall|i: int| 0 <= i < d.len() implies first_decl(#[trigger] d[i]) is None by {
                assert(d[i] == pieces[i]);
            }
            assert(first_decl(pieces[pieces.len() - 1]) is None);
        }
    }
}

} // verus!
