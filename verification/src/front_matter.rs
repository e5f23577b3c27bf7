//! The metadata block at the top of a content document: an explicit struct
//! with one optional field per recognized key, and the parser that splits a
//! raw document into metadata and body.
//!
//! The block is delimited by a line holding exactly `+++` at the very top and
//! a second such line below it. Between the two, every non-empty line must
//! read `key = "value"`, where the key is one of `title`, `description` or
//! `template`. A later assignment to a key replaces an earlier one.

use vstd::prelude::*;
use vstd::string::*;
use vstd::seq_lib::*;
use crate::errors::SectionError;
use crate::paths::{spec_split, spec_join};
use crate::paths::{split_str, join_with};

verus! {

/// Front-matter metadata: the fields of the block this core reads.
#[derive(Clone, Debug, PartialEq)]
pub struct FrontMatter {
    pub title: Option<String>,
    pub description: Option<String>,
    pub template: Option<String>,
}

/// The abstract value of an optional string field.
pub open spec fn opt_view(o: Option<String>) -> Option<Seq<char>> {
    match o {
        Some(s) => Some(s@),
        None => None,
    }
}

/// Clones an optional string, keeping its abstract value.
pub(crate) fn clone_opt(o: &Option<String>) -> (r: Option<String>)
    ensures
        opt_view(r) == opt_view(*o),
{
    match o {
        Some(s) => Some(s.clone()),
        None => None,
    }
}

/// The abstract value of a front-matter block.
pub struct FrontMatterView {
    pub title: Option<Seq<char>>,
    pub description: Option<Seq<char>>,
    pub template: Option<Seq<char>>,
}

impl View for FrontMatter {
    type V = FrontMatterView;

    open spec fn view(&self) -> FrontMatterView {
        FrontMatterView {
            title: opt_view(self.title),
            description: opt_view(self.description),
            template: opt_view(self.template),
        }
    }
}

/// The delimiter line of a metadata block.
pub open spec fn delim() -> Seq<char> {
    "+++"@
}

/// A block with nothing assigned.
pub open spec fn empty_front_matter() -> FrontMatterView {
    FrontMatterView { title: None, description: None, template: None }
}

/// Reads one `key = "value"` line: the key runs to the first space, then
/// ` = "` follows, and the value runs to a closing quote that ends the line
/// and contains no quote itself. Anything else is malformed.
pub open spec fn spec_key_value(line: Seq<char>) -> Option<(Seq<char>, Seq<char>)> {
    match line.index_of_first(' ') {
        None => None,
        Some(i) => if i > 0 && i + 5 <= line.len() && line[i + 1] == '=' && line[i + 2] == ' '
            && line[i + 3] == '"' && line.last() == '"' && !line.subrange(
            i + 4,
            line.len() - 1,
        ).contains('"') {
            Some((line.take(i), line.subrange(i + 4, line.len() - 1)))
        } else {
            None
        },
    }
}

/// One line applied to the block built so far: empty lines change nothing,
/// a recognized key replaces its field, and anything else is malformed.
pub open spec fn spec_apply_line(fm: FrontMatterView, line: Seq<char>) -> Option<FrontMatterView> {
    if line.len() == 0 {
        Some(fm)
    } else {
        match spec_key_value(line) {
            None => None,
            Some(kv) => {
                let k = kv.0;
                let v = kv.1;
                if k == "title"@ {
                    Some(FrontMatterView { title: Some(v), ..fm })
                } else if k == "description"@ {
                    Some(FrontMatterView { description: Some(v), ..fm })
                } else if k == "template"@ {
                    Some(FrontMatterView { template: Some(v), ..fm })
                } else {
                    None
                }
            },
        }
    }
}

/// The metadata lines read top to bottom, starting from the empty block.
pub open spec fn spec_fold_lines(lines: Seq<Seq<char>>) -> Option<FrontMatterView>
    decreases lines.len(),
{
    if lines.len() == 0 {
        Some(empty_front_matter())
    } else {
        match spec_fold_lines(lines.drop_last()) {
            None => None,
            Some(fm) => spec_apply_line(fm, lines.last()),
        }
    }
}

/// What splitting a raw document yields: the parsed metadata block and the
/// body below the closing delimiter, or nothing when the document is
/// malformed — no opening `+++` line at the top, no closing `+++` line, or
/// a bad line in between.
pub open spec fn spec_split_content(content: Seq<char>) -> Option<(FrontMatterView, Seq<char>)> {
    let lines = spec_split(content, '\n');
    if lines[0] != delim() {
        None
    } else {
        match lines.skip(1).index_of_first(delim()) {
            None => None,
            Some(j) => match spec_fold_lines(lines.subrange(1, j + 1)) {
                None => None,
                Some(fm) => Some((fm, spec_join(lines.skip(j + 2), '\n'))),
            },
        }
    }
}

/// The index of the first occurrence of `c` in `s`, if any.
fn find_char(s: &str, c: char) -> (r: Option<usize>)
    ensures
        match s@.index_of_first(c) {
            Some(j) => r is Some && r.unwrap() == j,
            None => r is None,
        },
{
    let n = s.unicode_len();
    let mut i: usize = 0;
    while i < n
        invariant
            i <= n,
            n == s@.len(),
            forall|m: int| 0 <= m < i ==> s@[m] != c,
        decreases n - i,
    {
        if s.get_char(i) == c {
            proof {
                s@.index_of_first_ensures(c);
            }
            return Some(i);
        }
        i = i + 1;
    }
    proof {
        s@.index_of_first_ensures(c);
        if s@.contains(c) {
            let w = choose|w: int| 0 <= w < s@.len() && s@[w] == c;
            assert(s@[w] != c);
        }
    }
    None
}

/// Reads one `key = "value"` line, as `spec_key_value` describes it.
#[verifier::loop_isolation(false)]
fn parse_key_value(line: &String) -> (r: Option<(String, String)>)
    ensures
        match spec_key_value(line@) {
            Some(kv) => r is Some && r.unwrap().0@ == kv.0 && r.unwrap().1@ == kv.1,
            None => r is None,
        },
{
    let s = line.as_str();
    let n = s.unicode_len();
    let found = find_char(s, ' ');
    match found {
        None => None,
        Some(i) => {
            if !(i > 0 && n >= 5 && i <= n - 5) {
                return None;
            }
            if !(s.get_char(i + 1) == '=' && s.get_char(i + 2) == ' ' && s.get_char(i + 3)
                == '"') {
                return None;
            }
            if s.get_char(n - 1) != '"' {
                return None;
            }
            let mut m = i + 4;
            while m < n - 1
                invariant
                    i + 4 <= m <= n - 1,
                    n == s@.len(),
                    s@ == line@,
                    forall|q: int| i + 4 <= q < m ==> s@[q] != '"',
                decreases n - 1 - m,
            {
                if s.get_char(m) == '"' {
                    proof {
                        let sub = line@.subrange(i + 4, n - 1);
                        assert(sub[m - i - 4] == s@[m as int]);
                        assert(sub.contains('"'));
                    }
                    return None;
                }
                m = m + 1;
            }
            proof {
                let sub = line@.subrange(i + 4, n - 1);
                assert forall|q: int| 0 <= q < sub.len() implies sub[q] != '"' by {
                    assert(sub[q] == s@[q + i + 4]);
                }
                assert(!sub.contains('"'));
                assert(line@.take(i as int) == line@.subrange(0, i as int));
            }
            let k = s.substring_char(0, i).to_owned();
            let v = s.substring_char(i + 4, n - 1).to_owned();
            Some((k, v))
        },
    }
}

/// Applies one metadata line to the block built so far, as
/// `spec_apply_line` describes it; reports whether the line was accepted.
fn apply_line(fm: &mut FrontMatter, line: &String) -> (ok: bool)
    ensures
        match spec_apply_line(old(fm)@, line@) {
            Some(f2) => ok && final(fm)@ == f2,
            None => !ok && final(fm)@ == old(fm)@,
        },
{
    if line.as_str().unicode_len() == 0 {
        return true;
    }
    match parse_key_value(line) {
        None => false,
        Some(kv) => {
            let (k, v) = kv;
            let title_key: String = "title".to_owned();
            let description_key: String = "description".to_owned();
            let template_key: String = "template".to_owned();
            if k == title_key {
                fm.title = Some(v);
                true
            } else if k == description_key {
                fm.description = Some(v);
                true
            } else if k == template_key {
                fm.template = Some(v);
                true
            } else {
                false
            }
        },
    }
}

/// The index of the closing delimiter line, searching below the opening one.
fn find_closing(lines: &Vec<String>, d: &String) -> (r: Option<usize>)
    requires
        d@ == delim(),
        lines@.len() >= 1,
    ensures
        match lines.deep_view().skip(1).index_of_first(delim()) {
            Some(j) => r is Some && r.unwrap() == j + 1,
            None => r is None,
        },
{
    let ghost sk = lines.deep_view().skip(1);
    let mut i: usize = 1;
    while i < lines.len()
        invariant
            1 <= i <= lines@.len(),
            d@ == delim(),
            sk == lines.deep_view().skip(1),
            forall|m: int| 0 <= m < i - 1 ==> sk[m] != delim(),
        decreases lines@.len() - i,
    {
        proof {
            assert(sk[i - 1] == lines.deep_view()[i as int]);
            assert(lines.deep_view()[i as int] == lines@[i as int]@);
        }
        if lines[i] == *d {
            proof {
                sk.index_of_first_ensures(delim());
                assert(sk[i - 1] == delim());
            }
            return Some(i);
        }
        i = i + 1;
    }
    proof {
        sk.index_of_first_ensures(delim());
        if sk.contains(delim()) {
            let w = choose|w: int| 0 <= w < sk.len() && sk[w] == delim();
            assert(sk[w] != delim());
        }
    }
    None
}

/// Once a prefix of the metadata lines is malformed, the whole block is.
proof fn lemma_fold_none_extends(l: Seq<Seq<char>>, t: int)
    requires
        0 <= t <= l.len(),
        spec_fold_lines(l.take(t)) is None,
    ensures
        spec_fold_lines(l) is None,
    decreases l.len() - t,
{
    if t < l.len() {
        assert(l.take(t + 1).drop_last() =~~= l.take(t));
        assert(spec_fold_lines(l.take(t + 1)) is None);
        lemma_fold_none_extends(l, t + 1);
    } else {
        assert(l.take(t) =~~= l);
    }
}

/// Splits a raw document into its front-matter metadata and its body, as
/// `spec_split_content` describes it. A malformed document yields a
/// front-matter parse failure tagged with `file_path`.
#[verifier::loop_isolation(false)]
pub fn split_content(file_path: &str, content: &str) -> (r: Result<
    (FrontMatter, String),
    SectionError,
>)
    ensures
        match spec_split_content(content@) {
            Some(fmb) => r matches Ok(v) && v.0@ == fmb.0 && v.1@ == fmb.1,
            None => r matches Err(e) && e is FrontMatterParse && e.spec_path() == file_path@,
        },
{
    let lines = split_str(content, '\n');
    let ghost ldv = lines.deep_view();
    let d: String = "+++".to_owned();
    proof {
        assert(ldv[0] == lines@[0]@);
    }
    if !(lines[0] == d) {
        return Err(
            SectionError::FrontMatterParse {
                path: file_path.to_owned(),
                cause: "expected the document to open with a '+++' line".to_owned(),
            },
        );
    }
    let closing = find_closing(&lines, &d);
    proof {
        ldv.skip(1).index_of_first_ensures(delim());
    }
    match closing {
        None => Err(
            SectionError::FrontMatterParse {
                path: file_path.to_owned(),
                cause: "no closing '+++' line below the front matter".to_owned(),
            },
        ),
        Some(close) => {
            let ghost j = close - 1;
            let mut fm = FrontMatter { title: None, description: None, template: None };
            let mut k: usize = 1;
            proof {
                assert(ldv.subrange(1, 1) =~~= Seq::<Seq<char>>::empty());
                assert(spec_fold_lines(ldv.subrange(1, 1)) == Some(empty_front_matter()));
            }
            while k < close
                invariant
                    1 <= k <= close,
                    close < ldv.len(),
                    ldv == lines.deep_view(),
                    lines@.len() == ldv.len(),
                    spec_fold_lines(ldv.subrange(1, k as int)) == Some(fm@),
                decreases close - k,
            {
                let ghost pre = ldv.subrange(1, k as int);
                let ok = apply_line(&mut fm, &lines[k]);
                proof {
                    assert(ldv.subrange(1, k + 1).drop_last() =~~= pre);
                    assert(ldv.subrange(1, k + 1).last() == ldv[k as int]);
                    assert(ldv[k as int] == lines@[k as int]@);
                }
                if !ok {
                    proof {
                        let block = ldv.subrange(1, close as int);
                        assert(block.take(k as int) =~~= ldv.subrange(1, k + 1));
                        lemma_fold_none_extends(block, k as int);
                    }
                    return Err(
                        SectionError::FrontMatterParse {
                            path: file_path.to_owned(),
                            cause: "malformed line in the front matter".to_owned(),
                        },
                    );
                }
                k = k + 1;
            }
            let mut rest: Vec<String> = Vec::new();
            let mut m = close + 1;
            proof {
                assert(rest.deep_view() =~~= ldv.subrange(close + 1, close + 1));
            }
            while m < lines.len()
                invariant
                    close + 1 <= m <= lines@.len(),
                    ldv == lines.deep_view(),
                    lines@.len() == ldv.len(),
                    rest.deep_view() == ldv.subrange(close + 1, m as int),
                decreases lines@.len() - m,
            {
                let ghost prev = rest.deep_view();
                rest.push(lines[m].clone());
                proof {
                    assert(rest.deep_view() =~~= prev.push(ldv[m as int]));
                    assert(ldv.subrange(close + 1, m + 1) =~~= prev.push(ldv[m as int]));
                }
                m = m + 1;
            }
            proof {
                reveal_strlit("\n");
                assert(ldv.subrange(close + 1, ldv.len() as int) =~~= ldv.skip(close + 1));
            }
            let body = join_with(&rest, "\n");
            Ok((fm, body))
        },
    }
}

} // verus!
