//! The template pipeline: a template is literal text interspersed with
//! expressions written between `{{` and `}}`. The one recognized
//! expression form is the lookup helper `{{ssm "<parameter-name>"}}`,
//! naming exactly one parameter as a quoted literal. Any other expression
//! passes through untouched. Extraction lists the referenced names,
//! deduplicated in first-occurrence order; rendering substitutes each
//! placeholder's bound value and fails — emitting nothing — when a name
//! has no binding.

use crate::errors::SSMError;
use vstd::prelude::*;
use vstd::string::*;

verus! {

/// One element of a parsed template: a stretch of literal text, the
/// recognized lookup placeholder carrying the parameter name it
/// references, or an unrecognized expression kept verbatim.
#[derive(Debug, PartialEq)]
pub enum TemplateElement {
    Literal(String),
    Placeholder(String),
    Passthrough(String),
}

/// A template element, mathematically: its text as a character sequence.
pub enum ElementModel {
    Literal(Seq<char>),
    Placeholder(Seq<char>),
    Passthrough(Seq<char>),
}

impl View for TemplateElement {
    type V = ElementModel;

    open spec fn view(&self) -> ElementModel {
        match self {
            TemplateElement::Literal(l) => ElementModel::Literal(l@),
            TemplateElement::Placeholder(n) => ElementModel::Placeholder(n@),
            TemplateElement::Passthrough(raw) => ElementModel::Passthrough(raw@),
        }
    }
}

impl DeepView for TemplateElement {
    type V = ElementModel;

    open spec fn deep_view(&self) -> ElementModel {
        self.view()
    }
}

/// The character `c` stands doubled at position `i`.
pub open spec fn marker_at(s: Seq<char>, c: char, i: int) -> bool {
    0 <= i && i + 2 <= s.len() && s[i] == c && s[i + 1] == c
}

/// The first position at or after `from` where `c` stands doubled, or -1
/// where there is none.
pub open spec fn find_marker(s: Seq<char>, c: char, from: int) -> int
    decreases s.len() - from
        when 0 <= from <= s.len()
{
    if from + 2 > s.len() {
        -1
    } else if s[from] == c && s[from + 1] == c {
        from
    } else {
        find_marker(s, c, from + 1)
    }
}

pub proof fn lemma_find_marker(s: Seq<char>, c: char, from: int)
    requires
        0 <= from <= s.len(),
    ensures
        ({
            let r = find_marker(s, c, from);
            &&& (r == -1 <==> (forall|i: int| from <= i ==> !marker_at(s, c, i)))
            &&& (r >= 0 ==> from <= r && marker_at(s, c, r) && (forall|i: int|
                from <= i < r ==> !marker_at(s, c, i)))
            &&& (r == -1 || r >= 0)
        }),
    decreases s.len() - from,
{
    if from + 2 > s.len() {
        assert forall|i: int| from <= i implies !marker_at(s, c, i) by {}
    } else if s[from] == c && s[from + 1] == c {
        assert(marker_at(s, c, from));
    } else {
        lemma_find_marker(s, c, from + 1);
        assert(!marker_at(s, c, from));
        let r = find_marker(s, c, from + 1);
        if r == -1 {
            assert forall|i: int| from <= i implies !marker_at(s, c, i) by {
                if i > from {
                    assert(from + 1 <= i);
                }
            }
        } else {
            assert forall|i: int| from <= i < r implies !marker_at(s, c, i) by {
                if i > from {
                    assert(from + 1 <= i < r);
                }
            }
            assert(marker_at(s, c, r));
        }
    }
}

/// Find the first position at or after `from` where `c` stands doubled in
/// `s`, whose character length is `n`.
#[verifier::loop_isolation(false)]
fn find_pair(s: &str, c: char, from: usize, n: usize) -> (r: Option<usize>)
    requires
        n == s@.len(),
        from <= n,
    ensures
        r matches Some(i) ==> from <= i && i + 2 <= n && find_marker(s@, c, from as int) == i as int,
        r is None ==> find_marker(s@, c, from as int) == -1,
{
    proof {
        lemma_find_marker(s@, c, from as int);
    }
    let mut i = from;
    while i < n && i + 1 < n
        invariant
            from <= i <= n,
            n == s@.len(),
            forall|k: int| from <= k < i ==> !marker_at(s@, c, k),
        decreases n - i,
    {
        if s.get_char(i) == c && s.get_char(i + 1) == c {
            proof {
                assert(marker_at(s@, c, i as int));
            }
            return Some(i);
        }
        i = i + 1;
    }
    proof {
        assert(forall|k: int| from <= k ==> !marker_at(s@, c, k));
    }
    None
}

/// The content between the braces follows the recognized lookup form:
/// the helper name, one space, and one quoted literal filling the rest.
pub open spec fn is_placeholder_content(c: Seq<char>) -> bool {
    &&& c.len() >= 6
    &&& c[0] == 's'
    &&& c[1] == 's'
    &&& c[2] == 'm'
    &&& c[3] == ' '
    &&& c[4] == '"'
    &&& c[c.len() - 1] == '"'
    &&& forall|k: int| 5 <= k < c.len() - 1 ==> c[k] != '"'
}

/// The parameter name the recognized content references: what stands
/// between the quotes.
pub open spec fn placeholder_name_of(c: Seq<char>) -> Seq<char> {
    c.subrange(5, c.len() - 1)
}

/// What an expression parses to: the recognized lookup form becomes a
/// placeholder for the name it references; everything else passes through
/// as its raw text, braces included.
pub open spec fn element_of(content: Seq<char>, raw: Seq<char>) -> ElementModel {
    if is_placeholder_content(content) {
        ElementModel::Placeholder(placeholder_name_of(content))
    } else {
        ElementModel::Passthrough(raw)
    }
}

/// Classify one expression: `content` is the text between the braces and
/// `raw` the whole expression including them.
fn classify_expression(content: &str, raw: &str) -> (e: TemplateElement)
    ensures
        e@ == element_of(content@, raw@),
{
    let n = content.unicode_len();
    if n < 6 {
        return TemplateElement::Passthrough(String::from_str(raw));
    }
    if !(content.get_char(0) == 's' && content.get_char(1) == 's' && content.get_char(2) == 'm'
        && content.get_char(3) == ' ' && content.get_char(4) == '"' && content.get_char(n - 1)
        == '"') {
        return TemplateElement::Passthrough(String::from_str(raw));
    }
    let mut k: usize = 5;
    let mut clean = true;
    while k < n - 1
        invariant
            5 <= k <= n - 1,
            n >= 6,
            n == content@.len(),
            clean <==> (forall|t: int| 5 <= t < k ==> content@[t] != '"'),
        decreases n - 1 - k,
    {
        if content.get_char(k) == '"' {
            clean = false;
        }
        k = k + 1;
    }
    if clean {
        TemplateElement::Placeholder(String::from_str(content.substring_char(5, n - 1)))
    } else {
        TemplateElement::Passthrough(String::from_str(raw))
    }
}

/// What the template text parses to from position `p` on: literal
/// stretches up to each `{{`, one element per expression, and the tail
/// after the last one. An expression left unclosed — a `{{` with no `}}`
/// after it — makes the whole template unavailable.
pub open spec fn parse_from(s: Seq<char>, p: int) -> Option<Seq<ElementModel>>
    decreases s.len() - p
        when 0 <= p <= s.len()
{
    if p >= s.len() {
        Some(Seq::empty())
    } else {
        let i = find_marker(s, '{', p);
        if i < 0 {
            Some(seq![ElementModel::Literal(s.subrange(p, s.len() as int))])
        } else {
            let j = find_marker(s, '}', i + 2);
            if j < 0 {
                None
            } else {
                proof {
                    lemma_find_marker(s, '{', p);
                    lemma_find_marker(s, '}', i + 2);
                }
                let head: Seq<ElementModel> = if i > p {
                    seq![ElementModel::Literal(s.subrange(p, i))]
                } else {
                    Seq::empty()
                };
                match parse_from(s, j + 2) {
                    None => None,
                    Some(rest) => Some(
                        head + seq![element_of(s.subrange(i + 2, j), s.subrange(i, j + 2))] + rest,
                    ),
                }
            }
        }
    }
}

/// The whole template, parsed.
pub open spec fn parsed_template(s: Seq<char>) -> Option<Seq<ElementModel>> {
    parse_from(s, 0)
}

fn parse_at(s: &str, p: usize, n: usize, out: &mut Vec<TemplateElement>) -> (ok: bool)
    requires
        p <= n,
        n == s@.len(),
    ensures
        match parse_from(s@, p as int) {
            Some(es) => ok && final(out).deep_view() == old(out).deep_view() + es,
            None => !ok,
        },
    decreases n - p,
{
    if p == n {
        proof {
            assert(out.deep_view() =~= old(out).deep_view() + Seq::<ElementModel>::empty());
        }
        return true;
    }
    match find_pair(s, '{', p, n) {
        None => {
            let lit = s.substring_char(p, n);
            out.push(TemplateElement::Literal(String::from_str(lit)));
            proof {
                assert(out.deep_view() =~= old(out).deep_view() + seq![
                    ElementModel::Literal(s@.subrange(p as int, n as int)),
                ]);
            }
            true
        },
        Some(i) => {
            match find_pair(s, '}', i + 2, n) {
                None => false,
                Some(j) => {
                    let ghost before = out.deep_view();
                    let ghost head: Seq<ElementModel> = if i > p {
                        seq![ElementModel::Literal(s@.subrange(p as int, i as int))]
                    } else {
                        Seq::empty()
                    };
                    if i > p {
                        let lit = s.substring_char(p, i);
                        out.push(TemplateElement::Literal(String::from_str(lit)));
                    }
                    let content = s.substring_char(i + 2, j);
                    let raw = s.substring_char(i, j + 2);
                    let elem = classify_expression(content, raw);
                    out.push(elem);
                    proof {
                        assert(out.deep_view() =~= before + head + seq![
                            element_of(
                                s@.subrange(i as int + 2, j as int),
                                s@.subrange(i as int, j as int + 2),
                            ),
                        ]);
                    }
                    let ghost mid = out.deep_view();
                    let ok = parse_at(s, j + 2, n, out);
                    proof {
                        let rest_opt = parse_from(s@, j as int + 2);
                        if rest_opt is Some {
                            let rest = rest_opt.unwrap();
                            assert(out.deep_view() =~= before + (head + seq![
                                element_of(
                                    s@.subrange(i as int + 2, j as int),
                                    s@.subrange(i as int, j as int + 2),
                                ),
                            ] + rest));
                        }
                    }
                    ok
                },
            }
        },
    }
}

/// The template text an element stands for: a literal or pass-through
/// element keeps its text, a placeholder stands for the lookup expression
/// that referenced its name.
pub open spec fn element_source(e: ElementModel) -> Seq<char> {
    match e {
        ElementModel::Literal(l) => l,
        ElementModel::Passthrough(raw) => raw,
        ElementModel::Placeholder(n) => "{{ssm \""@ + n + "\"}}"@,
    }
}

/// The template text a sequence of elements stands for.
pub open spec fn elements_source(es: Seq<ElementModel>) -> Seq<char>
    decreases es.len(),
{
    if es.len() == 0 {
        Seq::empty()
    } else {
        element_source(es[0]) + elements_source(es.drop_first())
    }
}

proof fn lemma_elements_source_concat(a: Seq<ElementModel>, b: Seq<ElementModel>)
    ensures
        elements_source(a + b) == elements_source(a) + elements_source(b),
    decreases a.len(),
{
    if a.len() == 0 {
        assert(a + b =~= b);
        assert(elements_source(a) + elements_source(b) =~= elements_source(b));
    } else {
        assert((a + b).drop_first() =~= a.drop_first() + b);
        assert((a + b)[0] == a[0]);
        lemma_elements_source_concat(a.drop_first(), b);
        assert(element_source(a[0]) + (elements_source(a.drop_first()) + elements_source(b))
            =~= (element_source(a[0]) + elements_source(a.drop_first())) + elements_source(b));
    }
}

proof fn lemma_element_source_is_raw(s: Seq<char>, i: int, j: int)
    requires
        marker_at(s, '{', i),
        marker_at(s, '}', j),
        i + 2 <= j,
    ensures
        element_source(element_of(s.subrange(i + 2, j), s.subrange(i, j + 2))) == s.subrange(
            i,
            j + 2,
        ),
{
    let content = s.subrange(i + 2, j);
    let raw = s.subrange(i, j + 2);
    if is_placeholder_content(content) {
        reveal_strlit("{{ssm \"");
        reveal_strlit("\"}}");
        let name = placeholder_name_of(content);
        let lhs = "{{ssm \""@ + name + "\"}}"@;
        assert("{{ssm \""@.len() == 7);
        assert("\"}}"@.len() == 3);
        assert(content.len() == j - i - 2);
        assert(name.len() == content.len() - 6);
        assert(lhs.len() == raw.len());
        assert forall|k: int| 0 <= k < raw.len() implies lhs[k] == raw[k] by {
            assert(raw[k] == s[i + k]);
            if k < 7 {
                assert(lhs[k] == ("{{ssm \""@ + name)[k]);
                assert(lhs[k] == "{{ssm \""@[k]);
                if k >= 2 {
                    assert(content[k - 2] == s[i + k]);
                }
            } else if k < 7 + name.len() {
                assert(lhs[k] == ("{{ssm \""@ + name)[k]);
                assert(lhs[k] == name[k - 7]);
                assert(name[k - 7] == content[5 + (k - 7)]);
                assert(content[k - 2] == s[i + k]);
            } else {
                assert(lhs[k] == "\"}}"@[k - (7 + name.len())]);
                if k == raw.len() - 3 {
                    assert(content[content.len() - 1] == '"');
                    assert(content[content.len() - 1] == s[i + k]);
                } else if k == raw.len() - 2 {
                    assert(s[i + k] == s[j]);
                } else {
                    assert(k == raw.len() - 1);
                    assert(s[i + k] == s[j + 1]);
                }
            }
        }
        assert(lhs =~= raw);
    }
}

/// Parsing is faithful: the template text each element stands for,
/// concatenated in order, is exactly the parsed stretch of the template —
/// nothing is lost and nothing is invented.
pub proof fn lemma_parse_faithful(s: Seq<char>, p: int)
    requires
        0 <= p <= s.len(),
        parse_from(s, p) is Some,
    ensures
        elements_source(parse_from(s, p).unwrap()) == s.subrange(p, s.len() as int),
    decreases s.len() - p,
{
    let es = parse_from(s, p).unwrap();
    if p >= s.len() {
        assert(elements_source(es) =~= s.subrange(p, s.len() as int));
    } else {
        lemma_find_marker(s, '{', p);
        let i = find_marker(s, '{', p);
        if i < 0 {
            assert(es == seq![ElementModel::Literal(s.subrange(p, s.len() as int))]);
            assert(es.drop_first() =~= Seq::<ElementModel>::empty());
            assert(es[0] == ElementModel::Literal(s.subrange(p, s.len() as int)));
            assert(elements_source(Seq::<ElementModel>::empty()) == Seq::<char>::empty());
            assert(elements_source(es) =~= s.subrange(p, s.len() as int));
        } else {
            lemma_find_marker(s, '}', i + 2);
            let j = find_marker(s, '}', i + 2);
            assert(j >= 0);
            lemma_parse_faithful(s, j + 2);
            let content = s.subrange(i + 2, j);
            let raw = s.subrange(i, j + 2);
            let elem = element_of(content, raw);
            let rest = parse_from(s, j + 2).unwrap();
            let head: Seq<ElementModel> = if i > p {
                seq![ElementModel::Literal(s.subrange(p, i))]
            } else {
                Seq::empty()
            };
            assert(es == head + seq![elem] + rest);
            lemma_element_source_is_raw(s, i, j);
            lemma_elements_source_concat(head + seq![elem], rest);
            lemma_elements_source_concat(head, seq![elem]);
            assert(seq![elem].drop_first() =~= Seq::<ElementModel>::empty());
            assert(seq![elem][0] == elem);
            assert(elements_source(Seq::<ElementModel>::empty()) == Seq::<char>::empty());
            assert(elements_source(seq![elem]) =~= raw);
            if i > p {
                assert(head[0] == ElementModel::Literal(s.subrange(p, i)));
                assert(head.drop_first() =~= Seq::<ElementModel>::empty());
                assert(elements_source(head) =~= s.subrange(p, i));
                assert(s.subrange(p, i) + raw + s.subrange(j + 2, s.len() as int) =~= s.subrange(
                    p,
                    s.len() as int,
                ));
            } else {
                assert(elements_source(head) =~= Seq::<char>::empty());
                assert(Seq::<char>::empty() + raw + s.subrange(j + 2, s.len() as int)
                    =~= s.subrange(p, s.len() as int));
            }
        }
    }
}

/// The names the placeholders reference, in template order, one entry per
/// occurrence.
pub open spec fn placeholder_names(es: Seq<ElementModel>) -> Seq<Seq<char>>
    decreases es.len(),
{
    if es.len() == 0 {
        Seq::empty()
    } else {
        let rest = placeholder_names(es.drop_first());
        match es[0] {
            ElementModel::Placeholder(n) => seq![n] + rest,
            _ => rest,
        }
    }
}

/// The names of `s` that are not yet in `seen`, each kept only at its
/// first occurrence, in order.
pub open spec fn dedup_first(s: Seq<Seq<char>>, seen: Set<Seq<char>>) -> Seq<Seq<char>>
    decreases s.len(),
{
    if s.len() == 0 {
        Seq::empty()
    } else if seen.contains(s[0]) {
        dedup_first(s.drop_first(), seen)
    } else {
        seq![s[0]] + dedup_first(s.drop_first(), seen.insert(s[0]))
    }
}

/// The parameter names a parsed template references: every placeholder's
/// name, deduplicated, in first-occurrence order.
pub open spec fn extracted_names(es: Seq<ElementModel>) -> Seq<Seq<char>> {
    dedup_first(placeholder_names(es), Set::empty())
}

/// A name is extracted exactly when some placeholder references it and it
/// was not among the already-seen ones.
pub proof fn lemma_dedup_first_membership(s: Seq<Seq<char>>, seen: Set<Seq<char>>)
    ensures
        forall|x: Seq<char>|
            #[trigger] dedup_first(s, seen).contains(x) <==> (s.contains(x) && !seen.contains(x)),
    decreases s.len(),
{
    if s.len() == 0 {
        assert(dedup_first(s, seen) == Seq::<Seq<char>>::empty());
        assert forall|x: Seq<char>| #[trigger]
            dedup_first(s, seen).contains(x) <==> (s.contains(x) && !seen.contains(x)) by {
            assert(!dedup_first(s, seen).contains(x));
            assert(!s.contains(x));
        }
    } else {
        let rest = s.drop_first();
        if seen.contains(s[0]) {
            lemma_dedup_first_membership(rest, seen);
            let d = dedup_first(s, seen);
            assert(d == dedup_first(rest, seen));
            assert forall|x: Seq<char>| #[trigger]
                d.contains(x) <==> (s.contains(x) && !seen.contains(x)) by {
                if d.contains(x) {
                    assert(rest.contains(x) && !seen.contains(x));
                    let w = choose|w: int| 0 <= w < rest.len() && rest[w] == x;
                    assert(s[w + 1] == x);
                    assert(s.contains(x));
                }
                if s.contains(x) && !seen.contains(x) {
                    let w = choose|w: int| 0 <= w < s.len() && s[w] == x;
                    assert(w != 0);
                    assert(rest[w - 1] == x);
                    assert(rest.contains(x));
                }
            }
        } else {
            let seen2 = seen.insert(s[0]);
            lemma_dedup_first_membership(rest, seen2);
            let d = dedup_first(s, seen);
            let drest = dedup_first(rest, seen2);
            assert(d == seq![s[0]] + drest);
            assert forall|x: Seq<char>| #[trigger]
                d.contains(x) <==> (s.contains(x) && !seen.contains(x)) by {
                if d.contains(x) {
                    let w = choose|w: int| 0 <= w < d.len() && d[w] == x;
                    if w == 0 {
                        assert(d[0] == s[0]);
                        assert(s.contains(s[0]));
                    } else {
                        assert(d[w] == drest[w - 1]);
                        assert(drest.contains(drest[w - 1]));
                        assert(rest.contains(x) && !seen2.contains(x));
                        let v = choose|v: int| 0 <= v < rest.len() && rest[v] == x;
                        assert(s[v + 1] == x);
                        assert(s.contains(x));
                    }
                }
                if s.contains(x) && !seen.contains(x) {
                    if x == s[0] {
                        assert(d[0] == s[0]);
                        assert(d.contains(x));
                    } else {
                        let w = choose|w: int| 0 <= w < s.len() && s[w] == x;
                        assert(w != 0);
                        assert(rest[w - 1] == x);
                        assert(rest.contains(x));
                        assert(!seen2.contains(x));
                        assert(drest.contains(x));
                        let v = choose|v: int| 0 <= v < drest.len() && drest[v] == x;
                        assert(d[v + 1] == x);
                        assert(d.contains(x));
                    }
                }
            }
        }
    }
}

/// What `dedup_first` emits is free of duplicates and disjoint from
/// `seen`.
pub proof fn lemma_dedup_first_distinct(s: Seq<Seq<char>>, seen: Set<Seq<char>>)
    ensures
        forall|i: int, j: int|
            0 <= i < j < dedup_first(s, seen).len() ==> dedup_first(s, seen)[i] != dedup_first(
                s,
                seen,
            )[j],
        forall|i: int|
            0 <= i < dedup_first(s, seen).len() ==> !seen.contains(
                #[trigger] dedup_first(s, seen)[i],
            ),
    decreases s.len(),
{
    if s.len() == 0 {
    } else {
        let rest = s.drop_first();
        let d = dedup_first(s, seen);
        if seen.contains(s[0]) {
            lemma_dedup_first_distinct(rest, seen);
            assert(d == dedup_first(rest, seen));
        } else {
            let seen2 = seen.insert(s[0]);
            lemma_dedup_first_distinct(rest, seen2);
            lemma_dedup_first_membership(rest, seen2);
            let drest = dedup_first(rest, seen2);
            assert(d == seq![s[0]] + drest);
            assert(d[0] == s[0]);
            assert forall|i: int, j: int| 0 <= i < j < d.len() implies d[i] != d[j] by {
                assert(d[j] == drest[j - 1]);
                assert(drest.contains(drest[j - 1]));
                assert(!seen2.contains(drest[j - 1]));
                if i > 0 {
                    assert(d[i] == drest[i - 1]);
                } else {
                    assert(seen2.contains(s[0]));
                }
            }
            assert forall|i: int| 0 <= i < d.len() implies !seen.contains(#[trigger] d[i]) by {
                if i > 0 {
                    assert(d[i] == drest[i - 1]);
                    assert(drest.contains(drest[i - 1]));
                    assert(!seen2.contains(drest[i - 1]));
                }
            }
        }
    }
}

/// Deduplicating a list that is already free of duplicates, none of it
/// seen, changes nothing.
pub proof fn lemma_dedup_first_stable(s: Seq<Seq<char>>, seen: Set<Seq<char>>)
    requires
        forall|i: int, j: int| 0 <= i < j < s.len() ==> s[i] != s[j],
        forall|i: int| 0 <= i < s.len() ==> !seen.contains(#[trigger] s[i]),
    ensures
        dedup_first(s, seen) == s,
    decreases s.len(),
{
    broadcast use vstd::seq_lib::group_seq_properties;

    if s.len() == 0 {
        assert(dedup_first(s, seen) =~= s);
    } else {
        let rest = s.drop_first();
        let seen2 = seen.insert(s[0]);
        assert(!seen.contains(s[0]));
        assert forall|i: int| 0 <= i < rest.len() implies !seen2.contains(#[trigger] rest[i]) by {
            assert(rest[i] == s[i + 1]);
            assert(!seen.contains(s[i + 1]));
            assert(s[i + 1] != s[0]);
        }
        assert forall|i: int, j: int| 0 <= i < j < rest.len() implies rest[i] != rest[j] by {
            assert(rest[i] == s[i + 1] && rest[j] == s[j + 1]);
        }
        lemma_dedup_first_stable(rest, seen2);
        assert(dedup_first(s, seen) =~= s);
    }
}

/// Extraction is idempotent: the extracted name list is already
/// deduplicated, so deduplicating it again yields it unchanged.
pub proof fn lemma_extract_idempotent(es: Seq<ElementModel>)
    ensures
        dedup_first(extracted_names(es), Set::empty()) == extracted_names(es),
{
    let names = placeholder_names(es);
    lemma_dedup_first_distinct(names, Set::empty());
    lemma_dedup_first_stable(dedup_first(names, Set::empty()), Set::empty());
}

/// Does some entry of `names` view as `name`?
fn contains_name(names: &Vec<String>, name: &String) -> (r: bool)
    ensures
        r == names.deep_view().contains(name@),
{
    let mut i: usize = 0;
    while i < names.len()
        invariant
            i <= names@.len(),
            forall|j: int| 0 <= j < i ==> names.deep_view()[j] != name@,
        decreases names@.len() - i,
    {
        if names[i] == *name {
            proof {
                assert(names.deep_view()[i as int] == name@);
            }
            return true;
        }
        i = i + 1;
    }
    proof {
        if names.deep_view().contains(name@) {
            let w = choose|w: int|
                0 <= w < names.deep_view().len() && names.deep_view()[w] == name@;
            assert(false);
        }
    }
    false
}

fn extract_at(t: &Vec<TemplateElement>, idx: usize, acc: &mut Vec<String>)
    requires
        idx <= t@.len(),
    ensures
        final(acc).deep_view() == old(acc).deep_view() + dedup_first(
            placeholder_names(t.deep_view().skip(idx as int)),
            old(acc).deep_view().to_set(),
        ),
    decreases t@.len() - idx,
{
    if idx == t.len() {
        proof {
            assert(t.deep_view().skip(idx as int) =~= Seq::<ElementModel>::empty());
            assert(acc.deep_view() =~= acc.deep_view() + dedup_first(
                placeholder_names(t.deep_view().skip(idx as int)),
                acc.deep_view().to_set(),
            ));
        }
        return ;
    }
    let ghost es = t.deep_view().skip(idx as int);
    proof {
        assert(es.drop_first() =~= t.deep_view().skip(idx as int + 1));
        assert(es[0] == t.deep_view()[idx as int]);
        assert(t.deep_view()[idx as int] == t@[idx as int]@);
    }
    match &t[idx] {
        TemplateElement::Placeholder(name) => {
            let ghost seen = acc.deep_view();
            let ghost names = placeholder_names(es);
            proof {
                assert(names == seq![name@] + placeholder_names(es.drop_first()));
                assert(names[0] == name@);
                assert(names.drop_first() =~= placeholder_names(es.drop_first()));
            }
            if contains_name(acc, name) {
                proof {
                    assert(seen.to_set().contains(name@));
                }
                extract_at(t, idx + 1, acc);
            } else {
                proof {
                    assert(!seen.to_set().contains(name@));
                }
                acc.push(name.clone());
                proof {
                    broadcast use vstd::seq_lib::group_seq_properties;

                    assert(acc.deep_view() =~= seen.push(name@));
                    assert(acc.deep_view().to_set() =~= seen.to_set().insert(name@));
                }
                extract_at(t, idx + 1, acc);
                proof {
                    assert(seen.push(name@) + dedup_first(
                        placeholder_names(t.deep_view().skip(idx as int + 1)),
                        seen.to_set().insert(name@),
                    ) =~= seen + (seq![name@] + dedup_first(
                        placeholder_names(es.drop_first()),
                        seen.to_set().insert(name@),
                    )));
                }
            }
        },
        TemplateElement::Literal(_) => {
            proof {
                assert(placeholder_names(es) == placeholder_names(es.drop_first()));
            }
            extract_at(t, idx + 1, acc);
        },
        TemplateElement::Passthrough(_) => {
            proof {
                assert(placeholder_names(es) == placeholder_names(es.drop_first()));
            }
            extract_at(t, idx + 1, acc);
        },
    }
}

/// The parameter names the parsed template references: the name of every
/// recognized placeholder, deduplicated, in first-occurrence order.
/// Extracting from the same parsed template again yields the same list.
pub fn extract_parameters(template: &Vec<TemplateElement>) -> (names: Vec<String>)
    ensures
        names.deep_view() == extracted_names(template.deep_view()),
{
    let mut acc: Vec<String> = Vec::new();
    proof {
        assert(acc.deep_view() =~= Seq::<Seq<char>>::empty());
        assert(acc.deep_view().to_set() =~= Set::<Seq<char>>::empty());
        assert(template.deep_view().skip(0) =~= template.deep_view());
    }
    extract_at(template, 0, &mut acc);
    proof {
        assert(Seq::<Seq<char>>::empty() + extracted_names(template.deep_view())
            =~= extracted_names(template.deep_view()));
    }
    acc
}

/// Parse the template text into its element sequence. A structurally
/// malformed template — one with an unclosed expression — is unavailable;
/// a template with no placeholders at all parses fine.
pub fn parse_template(s: &str) -> (r: Result<Vec<TemplateElement>, SSMError>)
    ensures
        parsed_template(s@) matches Some(es) ==> (r matches Ok(v) && v.deep_view() == es),
        parsed_template(s@) is None ==> r == Err::<Vec<TemplateElement>, SSMError>(
            SSMError::TemplateUnavailable,
        ),
{
    let n = s.unicode_len();
    let mut out: Vec<TemplateElement> = Vec::new();
    let ghost empty_out = out.deep_view();
    let ok = parse_at(s, 0, n, &mut out);
    if ok {
        proof {
            let es_opt = parse_from(s@, 0);
            if es_opt is Some {
                assert(empty_out + es_opt.unwrap() =~= es_opt.unwrap());
            }
        }
        Ok(out)
    } else {
        Err(SSMError::TemplateUnavailable)
    }
}

/// The mapping the bindings stand for: each name bound to its value, the
/// earliest pair winning where a name repeats.
pub open spec fn binding_map(pairs: Seq<(String, String)>) -> Map<Seq<char>, Seq<char>>
    decreases pairs.len(),
{
    if pairs.len() == 0 {
        Map::empty()
    } else {
        binding_map(pairs.drop_first()).insert(pairs[0].0@, pairs[0].1@)
    }
}

/// The position of the earliest pair binding `k`, or -1 where none does.
pub open spec fn first_binding_index(pairs: Seq<(String, String)>, k: Seq<char>) -> int
    decreases pairs.len(),
{
    if pairs.len() == 0 {
        -1
    } else if pairs[0].0@ == k {
        0
    } else {
        let r = first_binding_index(pairs.drop_first(), k);
        if r == -1 {
            -1
        } else {
            r + 1
        }
    }
}

pub proof fn lemma_binding_map_first(pairs: Seq<(String, String)>, k: Seq<char>)
    ensures
        ({
            let r = first_binding_index(pairs, k);
            &&& (r == -1 <==> !binding_map(pairs).dom().contains(k))
            &&& (r == -1 ==> forall|i: int| 0 <= i < pairs.len() ==> (#[trigger] pairs[i]).0@ != k)
            &&& (r >= 0 ==> 0 <= r < pairs.len() && pairs[r].0@ == k && (forall|i: int|
                0 <= i < r ==> (#[trigger] pairs[i]).0@ != k) && binding_map(pairs)[k]
                == pairs[r].1@)
            &&& (r == -1 || r >= 0)
        }),
    decreases pairs.len(),
{
    if pairs.len() == 0 {
    } else {
        let rest = pairs.drop_first();
        lemma_binding_map_first(rest, k);
        if pairs[0].0@ == k {
        } else {
            let r0 = first_binding_index(rest, k);
            if r0 == -1 {
                assert forall|i: int| 0 <= i < pairs.len() implies (#[trigger] pairs[i]).0@
                    != k by {
                    if i > 0 {
                        assert(rest[i - 1] == pairs[i]);
                    }
                }
            } else {
                assert(rest[r0] == pairs[r0 + 1]);
                assert forall|i: int| 0 <= i < r0 + 1 implies (#[trigger] pairs[i]).0@ != k by {
                    if i > 0 {
                        assert(rest[i - 1] == pairs[i]);
                    }
                }
            }
        }
    }
}

/// Look `name` up among the bindings: the value of the earliest pair that
/// binds it, or nothing where none does.
#[verifier::loop_isolation(false)]
fn lookup_binding(bindings: &Vec<(String, String)>, name: &String) -> (r: Option<String>)
    ensures
        binding_map(bindings@).dom().contains(name@) ==> (r matches Some(v) && v@ == binding_map(
            bindings@,
        )[name@]),
        !binding_map(bindings@).dom().contains(name@) ==> r is None,
{
    proof {
        lemma_binding_map_first(bindings@, name@);
    }
    let mut i: usize = 0;
    while i < bindings.len()
        invariant
            i <= bindings@.len(),
            forall|j: int| 0 <= j < i ==> (#[trigger] bindings@[j]).0@ != name@,
        decreases bindings@.len() - i,
    {
        if bindings[i].0 == *name {
            proof {
                let r = first_binding_index(bindings@, name@);
                assert(bindings@[i as int].0@ == name@);
                assert(r != -1);
                assert(r == i as int);
            }
            return Some(bindings[i].1.clone());
        }
        i = i + 1;
    }
    proof {
        let r = first_binding_index(bindings@, name@);
        if r >= 0 {
            assert(bindings@[r].0@ == name@);
            assert(false);
        }
    }
    None
}

/// The text the elements render to under the mapping `m`: literal and
/// pass-through elements keep their text, each placeholder becomes the
/// value its name is bound to, and a placeholder whose name is unbound
/// fails the whole render.
pub open spec fn rendered(es: Seq<ElementModel>, m: Map<Seq<char>, Seq<char>>) -> Option<Seq<char>>
    decreases es.len(),
{
    if es.len() == 0 {
        Some(Seq::empty())
    } else {
        let tail = rendered(es.drop_first(), m);
        match es[0] {
            ElementModel::Literal(l) => if tail is Some {
                Some(l + tail.unwrap())
            } else {
                None
            },
            ElementModel::Passthrough(raw) => if tail is Some {
                Some(raw + tail.unwrap())
            } else {
                None
            },
            ElementModel::Placeholder(n) => if m.dom().contains(n) && tail is Some {
                Some(m[n] + tail.unwrap())
            } else {
                None
            },
        }
    }
}

/// The name of the first placeholder the mapping does not bind.
pub open spec fn first_missing(es: Seq<ElementModel>, m: Map<Seq<char>, Seq<char>>) -> Seq<char>
    decreases es.len(),
{
    if es.len() == 0 {
        Seq::empty()
    } else {
        match es[0] {
            ElementModel::Placeholder(n) => if !m.dom().contains(n) {
                n
            } else {
                first_missing(es.drop_first(), m)
            },
            _ => first_missing(es.drop_first(), m),
        }
    }
}

/// A placeholder element whose name the mapping does not bind.
pub open spec fn element_missing(e: ElementModel, m: Map<Seq<char>, Seq<char>>) -> bool {
    e matches ElementModel::Placeholder(n) && !m.dom().contains(n)
}

fn render_at(
    t: &Vec<TemplateElement>,
    idx: usize,
    bindings: &Vec<(String, String)>,
    out: &mut String,
) -> (r: Result<(), SSMError>)
    requires
        idx <= t@.len(),
    ensures
        ({
            let tail = rendered(t.deep_view().skip(idx as int), binding_map(bindings@));
            &&& (tail matches Some(text) ==> r is Ok && final(out)@ == old(out)@ + text)
            &&& (tail is None ==> ({
                &&& r matches Err(e)
                &&& e matches SSMError::InvalidParameters(ns)
                &&& ns.deep_view() == seq![
                    first_missing(t.deep_view().skip(idx as int), binding_map(bindings@)),
                ]
            }))
        }),
    decreases t@.len() - idx,
{
    if idx == t.len() {
        proof {
            assert(t.deep_view().skip(idx as int) =~= Seq::<ElementModel>::empty());
            assert(out@ =~= out@ + Seq::<char>::empty());
        }
        return Ok(());
    }
    let ghost es = t.deep_view().skip(idx as int);
    let ghost m = binding_map(bindings@);
    proof {
        assert(es.drop_first() =~= t.deep_view().skip(idx as int + 1));
        assert(es[0] == t.deep_view()[idx as int]);
        assert(t.deep_view()[idx as int] == t@[idx as int]@);
    }
    let ghost base = out@;
    match &t[idx] {
        TemplateElement::Literal(l) => {
            out.append(l.as_str());
            let r = render_at(t, idx + 1, bindings, out);
            proof {
                let tail = rendered(es.drop_first(), m);
                if tail is Some {
                    assert(out@ =~= base + (l@ + tail.unwrap()));
                }
            }
            r
        },
        TemplateElement::Passthrough(raw) => {
            out.append(raw.as_str());
            let r = render_at(t, idx + 1, bindings, out);
            proof {
                let tail = rendered(es.drop_first(), m);
                if tail is Some {
                    assert(out@ =~= base + (raw@ + tail.unwrap()));
                }
            }
            r
        },
        TemplateElement::Placeholder(name) => {
            match lookup_binding(bindings, name) {
                Some(value) => {
                    out.append(value.as_str());
                    let r = render_at(t, idx + 1, bindings, out);
                    proof {
                        let tail = rendered(es.drop_first(), m);
                        if tail is Some {
                            assert(out@ =~= base + (m[name@] + tail.unwrap()));
                        }
                    }
                    r
                },
                None => {
                    let missing = vec![name.clone()];
                    proof {
                        assert(rendered(es, m) is None);
                        assert(first_missing(es, m) == name@);
                        assert(missing.deep_view() =~= seq![name@]);
                    }
                    Err(SSMError::InvalidParameters(missing))
                },
            }
        },
    }
}

/// Render the parsed template against the bindings. Succeeds with the
/// fully substituted text exactly when every placeholder's name is bound;
/// a single unbound name fails the whole render, naming that parameter,
/// and no partial output is produced.
pub fn render(template: &Vec<TemplateElement>, bindings: &Vec<(String, String)>) -> (r: Result<
    String,
    SSMError,
>)
    ensures
        ({
            let outcome = rendered(template.deep_view(), binding_map(bindings@));
            &&& (outcome matches Some(text) ==> r matches Ok(s) && s@ == text)
            &&& (outcome is None ==> ({
                &&& r matches Err(e)
                &&& e matches SSMError::InvalidParameters(ns)
                &&& ns.deep_view() == seq![
                    first_missing(template.deep_view(), binding_map(bindings@)),
                ]
            }))
        }),
{
    let mut out = String::new();
    proof {
        assert(template.deep_view().skip(0) =~= template.deep_view());
    }
    match render_at(template, 0, bindings, &mut out) {
        Ok(_) => {
            proof {
                let outcome = rendered(template.deep_view(), binding_map(bindings@));
                if outcome is Some {
                    assert(Seq::<char>::empty() + outcome.unwrap() =~= outcome.unwrap());
                }
            }
            Ok(out)
        },
        Err(e) => Err(e),
    }
}

proof fn lemma_render_none_iff(es: Seq<ElementModel>, m: Map<Seq<char>, Seq<char>>)
    ensures
        rendered(es, m) is None <==> (exists|i: int|
            0 <= i < es.len() && element_missing(#[trigger] es[i], m)),
    decreases es.len(),
{
    if es.len() == 0 {
    } else {
        let rest = es.drop_first();
        lemma_render_none_iff(rest, m);
        if rendered(es, m) is None {
            if element_missing(es[0], m) {
            } else {
                assert(rendered(rest, m) is None);
                let w = choose|w: int| 0 <= w < rest.len() && element_missing(#[trigger] rest[w], m);
                assert(es[w + 1] == rest[w]);
                assert(element_missing(es[w + 1], m));
            }
        }
        if exists|i: int| 0 <= i < es.len() && element_missing(#[trigger] es[i], m) {
            let w = choose|w: int| 0 <= w < es.len() && element_missing(#[trigger] es[w], m);
            if w == 0 {
                assert(rendered(es, m) is None);
            } else {
                assert(rest[w - 1] == es[w]);
                assert(element_missing(rest[w - 1], m));
                assert(rendered(rest, m) is None);
                assert(rendered(es, m) is None);
            }
        }
    }
}

proof fn lemma_placeholder_names_membership(es: Seq<ElementModel>)
    ensures
        forall|i: int|
            0 <= i < es.len() ==> ((#[trigger] es[i]) matches ElementModel::Placeholder(n)
                ==> placeholder_names(es).contains(n)),
        forall|x: Seq<char>|
            #[trigger] placeholder_names(es).contains(x) ==> exists|i: int|
                0 <= i < es.len() && #[trigger] es[i] == ElementModel::Placeholder(x),
    decreases es.len(),
{
    broadcast use vstd::seq_lib::group_seq_properties;

    if es.len() == 0 {
    } else {
        let rest = es.drop_first();
        lemma_placeholder_names_membership(rest);
        let names = placeholder_names(es);
        let rnames = placeholder_names(rest);
        assert forall|i: int| 0 <= i < es.len() implies ((#[trigger] es[i]) matches
            ElementModel::Placeholder(n) ==> names.contains(n)) by {
            if i == 0 {
                match es[0] {
                    ElementModel::Placeholder(n0) => {
                        assert(names == seq![n0] + rnames);
                        assert(names[0] == n0);
                        assert(names.contains(n0));
                    },
                    _ => {},
                }
            } else {
                assert(rest[i - 1] == es[i]);
                match es[i] {
                    ElementModel::Placeholder(n0) => {
                        assert(rnames.contains(n0));
                        let w = choose|w: int| 0 <= w < rnames.len() && rnames[w] == n0;
                        match es[0] {
                            ElementModel::Placeholder(h) => {
                                assert(names == seq![h] + rnames);
                                assert(names[w + 1] == n0);
                            },
                            _ => {
                                assert(names == rnames);
                            },
                        }
                        assert(names.contains(n0));
                    },
                    _ => {},
                }
            }
        }
        assert forall|x: Seq<char>| #[trigger] names.contains(x) implies exists|i: int|
            0 <= i < es.len() && #[trigger] es[i] == ElementModel::Placeholder(x) by {
            match es[0] {
                ElementModel::Placeholder(h) => {
                    assert(names == seq![h] + rnames);
                    if x == h {
                        assert(es[0] == ElementModel::Placeholder(x));
                    } else {
                        let w = choose|w: int| 0 <= w < names.len() && names[w] == x;
                        assert(w != 0);
                        assert(names[w] == rnames[w - 1]);
                        assert(rnames.contains(x));
                        let v = choose|v: int|
                            0 <= v < rest.len() && #[trigger] rest[v] == ElementModel::Placeholder(
                                x,
                            );
                        assert(es[v + 1] == ElementModel::Placeholder(x));
                    }
                },
                _ => {
                    assert(names == rnames);
                    let v = choose|v: int|
                        0 <= v < rest.len() && #[trigger] rest[v] == ElementModel::Placeholder(x);
                    assert(es[v + 1] == ElementModel::Placeholder(x));
                },
            }
        }
    }
}

/// Rendering is strict: it fails exactly when some extracted name is
/// absent from the mapping, and then no output at all is produced.
pub proof fn lemma_render_fails_iff_name_missing(es: Seq<ElementModel>, m: Map<Seq<char>, Seq<char>>)
    ensures
        rendered(es, m) is None <==> (exists|i: int|
            0 <= i < extracted_names(es).len() && !m.dom().contains(
                #[trigger] extracted_names(es)[i],
            )),
{
    broadcast use vstd::seq_lib::group_seq_properties;

    lemma_render_none_iff(es, m);
    lemma_placeholder_names_membership(es);
    lemma_dedup_first_membership(placeholder_names(es), Set::empty());
    let names = extracted_names(es);
    if rendered(es, m) is None {
        let w = choose|w: int| 0 <= w < es.len() && element_missing(#[trigger] es[w], m);
        match es[w] {
            ElementModel::Placeholder(n) => {
                assert(placeholder_names(es).contains(n));
                assert(names.contains(n));
                let v = choose|v: int| 0 <= v < names.len() && names[v] == n;
                assert(!m.dom().contains(names[v]));
            },
            _ => {
                assert(false);
            },
        }
    }
    if exists|i: int|
        0 <= i < names.len() && !m.dom().contains(#[trigger] names[i]) {
        let v = choose|v: int| 0 <= v < names.len() && !m.dom().contains(#[trigger] names[v]);
        assert(names.contains(names[v]));
        assert(placeholder_names(es).contains(names[v]));
        let w = choose|w: int|
            0 <= w < es.len() && #[trigger] es[w] == ElementModel::Placeholder(names[v]);
        assert(element_missing(es[w], m));
    }
}

/// Substitution round trip: a template of literal text around a single
/// placeholder renders to the same text with the placeholder replaced by
/// the bound value, the surrounding literals unchanged.
pub proof fn lemma_render_substitutes(
    a: Seq<char>,
    n: Seq<char>,
    b: Seq<char>,
    m: Map<Seq<char>, Seq<char>>,
)
    requires
        m.dom().contains(n),
    ensures
        rendered(
            seq![
                ElementModel::Literal(a),
                ElementModel::Placeholder(n),
                ElementModel::Literal(b),
            ],
            m,
        ) == Some(a + m[n] + b),
{
    let es = seq![ElementModel::Literal(a), ElementModel::Placeholder(n), ElementModel::Literal(b)];
    let es1 = seq![ElementModel::Placeholder(n), ElementModel::Literal(b)];
    let es2 = seq![ElementModel::Literal(b)];
    assert(es.drop_first() =~= es1);
    assert(es1.drop_first() =~= es2);
    assert(es2.drop_first() =~= Seq::<ElementModel>::empty());
    assert(rendered(Seq::<ElementModel>::empty(), m) == Some(Seq::<char>::empty()));
    assert(es2[0] == ElementModel::Literal(b));
    assert(rendered(es2, m) == Some(b + Seq::<char>::empty()));
    assert(b + Seq::<char>::empty() =~= b);
    assert(rendered(es1, m) == Some(m[n] + b));
    assert(rendered(es, m) == Some(a + (m[n] + b)));
    assert(a + (m[n] + b) =~= a + m[n] + b);
}

} // verus!
