//! HTML selections offered to Lua plugins (`html.parse(..)` and its methods).
use vstd::prelude::*;

use crate::external::{
    check_selector, html_root_attr, html_root_text, html_select_all, html_select_under,
    root_attr, root_text, select_all, select_under, selector_error,
};
use crate::text::{
    copy_str, is_prefix_of, join, join_seq, lower_seq, starts_with, to_ascii_lowercase,
    trim_start, trim_start_seq,
};

verus! {

broadcast use vstd::seq_lib::group_seq_properties;

/// A fragment compared by what it starts with: without leading white space, in ASCII
/// lowercase.
pub open spec fn normalized(fragment: Seq<char>) -> Seq<char> {
    lower_seq(trim_start_seq(fragment))
}

/// Which table part a fragment starts with, if any.
pub enum FragmentShape {
    Row,
    Cell,
    Body,
    Head,
    Other,
}

pub open spec fn shape_of(fragment: Seq<char>) -> FragmentShape {
    let n = normalized(fragment);
    if is_prefix_of("<tr"@, n) {
        FragmentShape::Row
    } else if is_prefix_of("<td"@, n) || is_prefix_of("<th"@, n) {
        FragmentShape::Cell
    } else if is_prefix_of("<tbody"@, n) {
        FragmentShape::Body
    } else if is_prefix_of("<thead"@, n) {
        FragmentShape::Head
    } else {
        FragmentShape::Other
    }
}

/// The selector of a fragment's own top elements once it is wrapped.
pub open spec fn root_selector_spec(fragment: Seq<char>) -> Seq<char> {
    match shape_of(fragment) {
        FragmentShape::Row => "table > tbody > tr"@,
        FragmentShape::Cell => "table > tbody > tr > *"@,
        FragmentShape::Body => "table > tbody"@,
        FragmentShape::Head => "table > thead"@,
        FragmentShape::Other => "vs-root > *"@,
    }
}

/// A fragment inside the smallest document shape that keeps its elements: table rows
/// in a table body, cells in a row, bodies and heads in a table, anything else in a
/// `vs-root` element.
pub open spec fn wrap_spec(fragment: Seq<char>) -> Seq<char> {
    match shape_of(fragment) {
        FragmentShape::Row => "<table><tbody>"@ + fragment + "</tbody></table>"@,
        FragmentShape::Cell => "<table><tbody><tr>"@ + fragment + "</tr></tbody></table>"@,
        FragmentShape::Body => "<table>"@ + fragment + "</table>"@,
        FragmentShape::Head => "<table>"@ + fragment + "</table>"@,
        FragmentShape::Other => "<vs-root>"@ + fragment + "</vs-root>"@,
    }
}

fn normalize_fragment(fragment: &str) -> (r: String)
    ensures
        r@ == normalized(fragment@),
{
    let t = trim_start(fragment);
    to_ascii_lowercase(t.as_str())
}

/// The selector of a fragment's own top elements once it is wrapped.
pub fn root_selector_for_fragment(fragment: &str) -> (r: &'static str)
    ensures
        r@ == root_selector_spec(fragment@),
{
    let n = normalize_fragment(fragment);
    let s = n.as_str();
    if starts_with(s, "<tr") {
        "table > tbody > tr"
    } else if starts_with(s, "<td") || starts_with(s, "<th") {
        "table > tbody > tr > *"
    } else if starts_with(s, "<tbody") {
        "table > tbody"
    } else if starts_with(s, "<thead") {
        "table > thead"
    } else {
        "vs-root > *"
    }
}

fn surround(before: &str, fragment: &str, after: &str) -> (r: String)
    ensures
        r@ == before@ + fragment@ + after@,
{
    let mut r = copy_str(before);
    r.append(fragment);
    r.append(after);
    r
}

/// Wraps a fragment so that an HTML parser keeps its elements.
pub fn wrap_fragment(fragment: &str) -> (r: String)
    ensures
        r@ == wrap_spec(fragment@),
{
    let n = normalize_fragment(fragment);
    let s = n.as_str();
    if starts_with(s, "<tr") {
        surround("<table><tbody>", fragment, "</tbody></table>")
    } else if starts_with(s, "<td") || starts_with(s, "<th") {
        surround("<table><tbody><tr>", fragment, "</tr></tbody></table>")
    } else if starts_with(s, "<tbody") || starts_with(s, "<thead") {
        surround("<table>", fragment, "</table>")
    } else {
        surround("<vs-root>", fragment, "</vs-root>")
    }
}

/// A selection of HTML fragments.
#[derive(Clone, Debug)]
pub struct HtmlSelection {
    fragments: Vec<String>,
    include_self_in_find: bool,
}

/// The lists of `s`, one after the other.
pub open spec fn concat_lists(s: Seq<Seq<Seq<char>>>) -> Seq<Seq<char>>
    decreases s.len(),
{
    if s.len() == 0 {
        Seq::empty()
    } else {
        concat_lists(s.drop_last()) + s.last()
    }
}

/// Puts the lists of `v` one after the other.
pub fn flatten_lists(v: &Vec<Vec<String>>) -> (r: Vec<String>)
    ensures
        r.deep_view() == concat_lists(v.deep_view()),
{
    let ghost s = v.deep_view();
    let mut r: Vec<String> = Vec::new();
    let mut i: usize = 0;
    assert(s.take(0) =~= Seq::<Seq<Seq<char>>>::empty());
    while i < v.len()
        invariant
            i <= s.len(),
            s == v.deep_view(),
            r.deep_view() == concat_lists(s.take(i as int)),
        decreases s.len() - i,
    {
        let ghost before = r.deep_view();
        let m = &v[i];
        assert(m.deep_view() == s[i as int]);
        let mut k: usize = 0;
        while k < m.len()
            invariant
                k <= m@.len(),
                r.deep_view() == before + m.deep_view().take(k as int),
            decreases m@.len() - k,
        {
            let ghost b = r.deep_view();
            r.push(m[k].clone());
            assert(m.deep_view()[k as int] == m@[k as int]@);
            assert(r.deep_view() =~= b.push(m.deep_view()[k as int]));
            assert(m.deep_view().take(k + 1) =~= m.deep_view().take(k as int).push(m.deep_view()[k as int]));
            assert(r.deep_view() =~= before + m.deep_view().take(k + 1));
            k += 1;
        }
        assert(m.deep_view().take(k as int) =~= m.deep_view());
        assert(s.take(i + 1).drop_last() =~= s.take(i as int));
        assert(s.take(i + 1).last() == s[i as int]);
        i += 1;
    }
    assert(s.take(i as int) =~= s);
    r
}

/// The matches of `selector` in each fragment, in order; the first failure stops.
pub open spec fn matches_in(fragments: Seq<Seq<char>>, include_self: bool, selector: Seq<char>) -> Result<
    Seq<Seq<char>>,
    Seq<char>,
>
    decreases fragments.len(),
{
    if fragments.len() == 0 {
        Ok(Seq::empty())
    } else {
        match matches_in(fragments.drop_last(), include_self, selector) {
            Err(e) => Err(e),
            Ok(prev) => {
                let f = fragments.last();
                let found = if include_self {
                    html_select_all(wrap_spec(f), selector)
                } else {
                    match html_select_under(wrap_spec(f), root_selector_spec(f), selector) {
                        Ok(per_root) => Ok(concat_lists(per_root)),
                        Err(e) => Err(e),
                    }
                };
                match found {
                    Err(e) => Err(e),
                    Ok(m) => Ok(prev + m),
                }
            },
        }
    }
}

/// The text of each fragment's own elements, in order; the first failure stops.
pub open spec fn text_in(fragments: Seq<Seq<char>>) -> Result<Seq<char>, Seq<char>>
    decreases fragments.len(),
{
    if fragments.len() == 0 {
        Ok(Seq::empty())
    } else {
        match text_in(fragments.drop_last()) {
            Err(e) => Err(e),
            Ok(prev) => {
                let f = fragments.last();
                match html_root_text(wrap_spec(f), root_selector_spec(f)) {
                    Err(e) => Err(e),
                    Ok(per_root) => Ok(prev + join_seq(concat_lists(per_root), Seq::empty())),
                }
            },
        }
    }
}

/// The attribute of the first fragment whose top element has it.
pub open spec fn attr_in(fragments: Seq<Seq<char>>, attribute: Seq<char>) -> Option<Seq<char>>
    decreases fragments.len(),
{
    if fragments.len() == 0 {
        None
    } else {
        let f = fragments[0];
        match html_root_attr(wrap_spec(f), root_selector_spec(f), attribute) {
            Some(v) => Some(v),
            None => attr_in(fragments.drop_first(), attribute),
        }
    }
}

impl HtmlSelection {
    pub closed spec fn fragments_spec(&self) -> Seq<Seq<char>> {
        self.fragments.deep_view()
    }

    pub closed spec fn include_self_spec(&self) -> bool {
        self.include_self_in_find
    }

    /// A selection of the given fragments; `include_self_in_find` lets `find` match
    /// the fragments' own top elements.
    pub fn new(fragments: Vec<String>, include_self_in_find: bool) -> (s: HtmlSelection)
        ensures
            s.fragments_spec() == fragments.deep_view(),
            s.include_self_spec() == include_self_in_find,
    {
        HtmlSelection { fragments, include_self_in_find }
    }

    /// `html.parse(input)`: a selection of the whole document.
    pub fn parse(input: &str) -> (s: HtmlSelection)
        ensures
            s.fragments_spec() == seq![input@],
            s.include_self_spec(),
    {
        let mut fragments: Vec<String> = Vec::new();
        fragments.push(copy_str(input));
        assert(fragments.deep_view() =~= seq![input@]);
        HtmlSelection { fragments, include_self_in_find: true }
    }

    /// The fragments of the selection.
    pub fn fragments(&self) -> (f: &Vec<String>)
        ensures
            f.deep_view() == self.fragments_spec(),
    {
        &self.fragments
    }

    fn single(fragment: &String) -> (s: HtmlSelection)
        ensures
            s.fragments_spec() == seq![fragment@],
            !s.include_self_spec(),
    {
        let mut fragments: Vec<String> = Vec::new();
        fragments.push(fragment.clone());
        assert(fragments.deep_view() =~= seq![fragment@]);
        HtmlSelection { fragments, include_self_in_find: false }
    }

    fn empty() -> (s: HtmlSelection)
        ensures
            s.fragments_spec() == Seq::<Seq<char>>::empty(),
            !s.include_self_spec(),
    {
        let fragments: Vec<String> = Vec::new();
        assert(fragments.deep_view() =~= Seq::<Seq<char>>::empty());
        HtmlSelection { fragments, include_self_in_find: false }
    }

    /// The fragment at `index` (0-based) alone; nothing past the end.
    pub fn eq(&self, index: usize) -> (s: HtmlSelection)
        ensures
            !s.include_self_spec(),
            s.fragments_spec() == (if index < self.fragments_spec().len() {
                seq![self.fragments_spec()[index as int]]
            } else {
                Seq::<Seq<char>>::empty()
            }),
    {
        if index < self.fragments.len() {
            assert(self.fragments.deep_view()[index as int] == self.fragments@[index as int]@);
            Self::single(&self.fragments[index])
        } else {
            Self::empty()
        }
    }

    /// The first fragment alone, if any.
    pub fn first(&self) -> (s: HtmlSelection)
        ensures
            !s.include_self_spec(),
            s.fragments_spec() == (if self.fragments_spec().len() > 0 {
                seq![self.fragments_spec()[0]]
            } else {
                Seq::<Seq<char>>::empty()
            }),
    {
        self.eq(0)
    }

    /// The last fragment alone, if any.
    pub fn last(&self) -> (s: HtmlSelection)
        ensures
            !s.include_self_spec(),
            s.fragments_spec() == (if self.fragments_spec().len() > 0 {
                seq![self.fragments_spec().last()]
            } else {
                Seq::<Seq<char>>::empty()
            }),
    {
        if self.fragments.len() > 0 {
            self.eq(self.fragments.len() - 1)
        } else {
            Self::empty()
        }
    }

    /// The fragments' HTML, concatenated.
    pub fn html(&self) -> (h: String)
        ensures
            h@ == join_seq(self.fragments_spec(), Seq::<char>::empty()),
    {
        proof {
            reveal_strlit("");
        }
        join(&self.fragments, "")
    }

    /// The selections `each` hands to its callback: each fragment alone, with its
    /// 1-based index.
    pub fn each(&self) -> (r: Vec<(usize, HtmlSelection)>)
        ensures
            r@.len() == self.fragments_spec().len(),
            forall|k: int|
                0 <= k < r@.len() ==> (#[trigger] r@[k]).0 == k + 1 && r@[k].1.fragments_spec()
                    == seq![self.fragments_spec()[k]] && !r@[k].1.include_self_spec(),
    {
        let mut r: Vec<(usize, HtmlSelection)> = Vec::new();
        let mut i: usize = 0;
        while i < self.fragments.len()
            invariant
                i <= self.fragments@.len(),
                r@.len() == i,
                forall|k: int|
                    0 <= k < i ==> (#[trigger] r@[k]).0 == k + 1 && r@[k].1.fragments_spec()
                        == seq![self.fragments.deep_view()[k]] && !r@[k].1.include_self_spec(),
            decreases self.fragments@.len() - i,
        {
            assert(self.fragments.deep_view()[i as int] == self.fragments@[i as int]@);
            r.push((i + 1, Self::single(&self.fragments[i])));
            i += 1;
        }
        r
    }

    /// The elements matching `selector` in every fragment: anywhere in a parsed
    /// document, below the fragments' own top elements otherwise.
    pub fn find(&self, selector: &str) -> (r: Result<HtmlSelection, String>)
        ensures
            match selector_error(selector@) {
                Some(e) => r matches Err(m) && m@ == e,
                None => match matches_in(self.fragments_spec(), self.include_self_spec(), selector@) {
                    Ok(found) => r matches Ok(s) && s.fragments_spec() == found
                        && !s.include_self_spec(),
                    Err(e) => r matches Err(m) && m@ == e,
                },
            },
    {
        match check_selector(selector) {
            Some(e) => {
                return Err(e);
            },
            None => {},
        }
        let ghost fr = self.fragments.deep_view();
        let mut found: Vec<String> = Vec::new();
        let mut i: usize = 0;
        assert(fr.take(0) =~= Seq::<Seq<char>>::empty());
        assert(found.deep_view() =~= Seq::<Seq<char>>::empty());
        while i < self.fragments.len()
            invariant
                i <= fr.len(),
                fr == self.fragments.deep_view(),
                selector_error(selector@) is None,
                matches_in(fr.take(i as int), self.include_self_in_find, selector@) == Ok::<
                    Seq<Seq<char>>,
                    Seq<char>,
                >(found.deep_view()),
            decreases fr.len() - i,
        {
            assert(fr.take(i + 1).drop_last() =~= fr.take(i as int));
            assert(fr[i as int] == self.fragments@[i as int]@);
            let f = self.fragments[i].as_str();
            let wrapped = wrap_fragment(f);
            let got = if self.include_self_in_find {
                select_all(wrapped.as_str(), selector)
            } else {
                match select_under(wrapped.as_str(), root_selector_for_fragment(f), selector) {
                    Ok(per_root) => Ok(flatten_lists(&per_root)),
                    Err(e) => Err(e),
                }
            };
            match got {
                Ok(m) => {
                    let ghost before = found.deep_view();
                    let mut k: usize = 0;
                    while k < m.len()
                        invariant
                            k <= m@.len(),
                            found.deep_view() == before + m.deep_view().take(k as int),
                        decreases m@.len() - k,
                    {
                        let ghost b = found.deep_view();
                        found.push(m[k].clone());
                        assert(m.deep_view()[k as int] == m@[k as int]@);
                        assert(found.deep_view() =~= b.push(m.deep_view()[k as int]));
                        assert(m.deep_view().take(k + 1) =~= m.deep_view().take(k as int).push(
                            m.deep_view()[k as int],
                        ));
                        assert(found.deep_view() =~= before + m.deep_view().take(k + 1));
                        k += 1;
                    }
                    assert(m.deep_view().take(k as int) =~= m.deep_view());
                },
                Err(e) => {
                    proof {
                        lemma_matches_in_error_stays(fr, i as int, self.include_self_in_find, selector@);
                    }
                    return Err(e);
                },
            }
            i += 1;
        }
        assert(fr.take(i as int) =~= fr);
        Ok(HtmlSelection { fragments: found, include_self_in_find: false })
    }

    /// The text of the fragments' own top elements, concatenated.
    pub fn text(&self) -> (r: Result<String, String>)
        ensures
            match text_in(self.fragments_spec()) {
                Ok(t) => r matches Ok(s) && s@ == t,
                Err(e) => r matches Err(m) && m@ == e,
            },
    {
        let ghost fr = self.fragments.deep_view();
        let mut out = String::new();
        let mut i: usize = 0;
        assert(fr.take(0) =~= Seq::<Seq<char>>::empty());
        while i < self.fragments.len()
            invariant
                i <= fr.len(),
                fr == self.fragments.deep_view(),
                text_in(fr.take(i as int)) == Ok::<Seq<char>, Seq<char>>(out@),
            decreases fr.len() - i,
        {
            assert(fr.take(i + 1).drop_last() =~= fr.take(i as int));
            assert(fr[i as int] == self.fragments@[i as int]@);
            let f = self.fragments[i].as_str();
            let wrapped = wrap_fragment(f);
            match root_text(wrapped.as_str(), root_selector_for_fragment(f)) {
                Ok(per_root) => {
                    let pieces = flatten_lists(&per_root);
                    proof {
                        reveal_strlit("");
                    }
                    let t = join(&pieces, "");
                    out.append(t.as_str());
                },
                Err(e) => {
                    proof {
                        lemma_text_in_error_stays(fr, i as int);
                    }
                    return Err(e);
                },
            }
            i += 1;
        }
        assert(fr.take(i as int) =~= fr);
        Ok(out)
    }

    /// An attribute of the first fragment whose top element has it.
    pub fn attr(&self, attribute: &str) -> (r: Option<String>)
        ensures
            r.deep_view() == attr_in(self.fragments_spec(), attribute@),
    {
        let ghost fr = self.fragments.deep_view();
        let mut i: usize = 0;
        while i < self.fragments.len()
            invariant
                i <= fr.len(),
                fr == self.fragments.deep_view(),
                attr_in(fr, attribute@) == attr_in(fr.skip(i as int), attribute@),
            decreases fr.len() - i,
        {
            assert(fr.skip(i as int)[0] == fr[i as int]);
            assert(fr[i as int] == self.fragments@[i as int]@);
            let f = self.fragments[i].as_str();
            let wrapped = wrap_fragment(f);
            match root_attr(wrapped.as_str(), root_selector_for_fragment(f), attribute) {
                Some(v) => {
                    return Some(v);
                },
                None => {},
            }
            assert(fr.skip(i as int).drop_first() =~= fr.skip(i + 1));
            i += 1;
        }
        None
    }
}

proof fn lemma_matches_in_error_stays(fr: Seq<Seq<char>>, i: int, include_self: bool, selector: Seq<char>)
    requires
        0 <= i < fr.len(),
        matches_in(fr.take(i + 1), include_self, selector) is Err,
    ensures
        matches_in(fr, include_self, selector) == matches_in(fr.take(i + 1), include_self, selector),
    decreases fr.len() - i,
{
    if i + 1 == fr.len() {
        assert(fr.take(i + 1) =~= fr);
    } else {
        assert(fr.drop_last().take(i + 1) =~= fr.take(i + 1));
        lemma_matches_in_error_stays(fr.drop_last(), i, include_self, selector);
    }
}

proof fn lemma_text_in_error_stays(fr: Seq<Seq<char>>, i: int)
    requires
        0 <= i < fr.len(),
        text_in(fr.take(i + 1)) is Err,
    ensures
        text_in(fr) == text_in(fr.take(i + 1)),
    decreases fr.len() - i,
{
    if i + 1 == fr.len() {
        assert(fr.take(i + 1) =~= fr);
    } else {
        assert(fr.drop_last().take(i + 1) =~= fr.take(i + 1));
        lemma_text_in_error_stays(fr.drop_last(), i);
    }
}

} // verus!
