//! What is refused of a declared event, and of a value that is to be read from
//! an environment.

use crate::text::{same, starts_with, strip_prefix};
use vstd::prelude::*;

verus! {

/// Why a declaration is refused.
#[derive(Debug, Clone, Copy, PartialEq, Eq, Structural)]
pub enum Refusal {
    UnknownScope,
    Union,
    UnnamedFields,
    UnknownOption,
    NoConstantName,
}

/// The sentence a refusal is reported as.
pub open spec fn refusal_text(refusal: Refusal) -> Seq<char> {
    match refusal {
        Refusal::UnknownScope => "the only scope is `@scoped`"@,
        Refusal::Union => "EnvFields is for a struct or an enum"@,
        Refusal::UnnamedFields =>
            "EnvFields needs named fields: a script reads a variable by name"@,
        Refusal::UnknownOption => "the only option on a field is `flatten`"@,
        Refusal::NoConstantName => "expected `name = value`"@,
    }
}

impl Refusal {
    /// The sentence this is reported as.
    pub fn to_string(&self) -> (r: String)
        ensures
            r@ == refusal_text(*self),
    {
        match self {
            Refusal::UnknownScope => "the only scope is `@scoped`".to_owned(),
            Refusal::Union => "EnvFields is for a struct or an enum".to_owned(),
            Refusal::UnnamedFields =>
                "EnvFields needs named fields: a script reads a variable by name".to_owned(),
            Refusal::UnknownOption => "the only option on a field is `flatten`".to_owned(),
            Refusal::NoConstantName => "expected `name = value`".to_owned(),
        }
    }
}

/// Whether an event happens to one item rather than to the bar, given the word
/// behind its mark, where it has one.
pub fn scoped(scope: Option<&str>) -> (r: Result<bool, Refusal>)
    ensures
        r == match scope {
            None => Ok::<bool, Refusal>(false),
            Some(word) => if word@ == "scoped"@ {
                Ok::<bool, Refusal>(true)
            } else {
                Err::<bool, Refusal>(Refusal::UnknownScope)
            },
        },
{
    match scope {
        None => Ok(false),
        Some(word) => if same(word, "scoped") {
            Ok(true)
        } else {
            Err(Refusal::UnknownScope)
        },
    }
}

/// What a value's fields are.
#[derive(Debug, Clone, Copy, PartialEq, Eq, Structural)]
pub enum Fields {
    Unit,
    Unnamed,
    Named,
}

/// Whether there are fields to be read by name.
pub fn readable(fields: Fields) -> (r: Result<bool, Refusal>)
    ensures
        r == match fields {
            Fields::Unit => Ok::<bool, Refusal>(false),
            Fields::Unnamed => Err::<bool, Refusal>(Refusal::UnnamedFields),
            Fields::Named => Ok::<bool, Refusal>(true),
        },
{
    match fields {
        Fields::Unit => Ok(false),
        Fields::Unnamed => Err(Refusal::UnnamedFields),
        Fields::Named => Ok(true),
    }
}

/// Whether a field's own fields are projected up beside it, given what it says
/// of itself.
pub open spec fn all_flatten(options: Seq<Seq<char>>) -> bool {
    forall|i: int| 0 <= i < options.len() ==> #[trigger] options[i] == "flatten"@
}

/// Whether a field's own fields are projected up beside it.
pub fn flattened(options: &Vec<String>) -> (r: Result<bool, Refusal>)
    ensures
        if all_flatten(crate::text::text_views(options@)) {
            r == Ok::<bool, Refusal>(options@.len() > 0)
        } else {
            r == Err::<bool, Refusal>(Refusal::UnknownOption)
        },
{
    let ghost all = crate::text::text_views(options@);
    let mut i: usize = 0;
    while i < options.len()
        invariant
            i <= options@.len(),
            all == crate::text::text_views(options@),
            all.len() == options@.len(),
            forall|j: int| 0 <= j < i ==> #[trigger] all[j] == "flatten"@,
        decreases options@.len() - i,
    {
        assert(all[i as int] == options@[i as int]@);
        if !same(&options[i], "flatten") {
            assert(!all_flatten(all));
            return Err(Refusal::UnknownOption);
        }
        i = i + 1;
    }
    Ok(options.len() > 0)
}

/// Names over plain text, variant by variant.
pub open spec fn name_views(names: Seq<Vec<String>>) -> Seq<Seq<Seq<char>>> {
    names.map_values(|held: Vec<String>| crate::text::text_views(held@))
}

/// Whether a name stands at a place: a variant, and one of its names.
pub open spec fn is_place(names: Seq<Seq<Seq<char>>>, v: int, i: int) -> bool {
    0 <= v < names.len() && 0 <= i < names[v].len()
}

/// Whether one place comes before another.
pub open spec fn comes_before(v: int, i: int, w: int, j: int) -> bool {
    v < w || (v == w && i < j)
}

/// Whether a name stands at a place and at none before it.
pub open spec fn is_first(names: Seq<Seq<Seq<char>>>, v: int, i: int) -> bool {
    is_place(names, v, i) && forall|w: int, j: int|
        is_place(names, w, j) && #[trigger] comes_before(w, j, v, i) ==> names[w][j] != names[v][i]
}

/// Whether the name at a place stands at one before it.
fn named_before(names: &Vec<Vec<String>>, v: usize, i: usize) -> (r: bool)
    requires
        is_place(name_views(names@), v as int, i as int),
    ensures
        r == !is_first(name_views(names@), v as int, i as int),
{
    let ghost all = name_views(names@);
    let name = &names[v][i];
    assert(all[v as int][i as int] == name@);
    let n: usize = names.len();
    let mut w: usize = 0;
    while w <= v
        invariant
            w <= v + 1,
            v < n,
            n == names@.len(),
            all == name_views(names@),
            is_place(all, v as int, i as int),
            name@ == all[v as int][i as int],
            forall|a: int, b: int|
                a < w && is_place(all, a, b) && #[trigger] comes_before(a, b, v as int, i as int)
                    ==> all[a][b] != name@,
        decreases v + 1 - w,
    {
        let upto: usize = if w == v {
            i
        } else {
            names[w].len()
        };
        let mut j: usize = 0;
        while j < upto
            invariant
                w <= v,
                v < names@.len(),
                all == name_views(names@),
                is_place(all, v as int, i as int),
                name@ == all[v as int][i as int],
                upto <= names@[w as int]@.len(),
                upto == (if w == v {
                    i as int
                } else {
                    names@[w as int]@.len() as int
                }),
                j <= upto,
                forall|a: int, b: int|
                    a < w && is_place(all, a, b) && #[trigger] comes_before(
                        a,
                        b,
                        v as int,
                        i as int,
                    ) ==> all[a][b] != name@,
                forall|b: int| 0 <= b < j ==> #[trigger] all[w as int][b] != name@,
            decreases upto - j,
        {
            assert(all[w as int][j as int] == names@[w as int]@[j as int]@);
            if same(&names[w][j], name) {
                assert(is_place(all, w as int, j as int) && comes_before(
                    w as int,
                    j as int,
                    v as int,
                    i as int,
                ));
                return true;
            }
            j = j + 1;
        }
        w = w + 1;
    }
    false
}

/// The places whose names are to be left blank for every variant: the first of
/// each name, in order.
pub fn union_of(names: &Vec<Vec<String>>) -> (r: Vec<(usize, usize)>)
    ensures
        forall|v: usize, i: usize| #[trigger]
            r@.contains((v, i)) <==> is_first(name_views(names@), v as int, i as int),
        forall|a: int, b: int|
            0 <= a < b < r@.len() ==> comes_before(
                (#[trigger] r@[a]).0 as int,
                r@[a].1 as int,
                (#[trigger] r@[b]).0 as int,
                r@[b].1 as int,
            ),
{
    let ghost all = name_views(names@);
    let mut out: Vec<(usize, usize)> = Vec::new();
    let mut v: usize = 0;
    while v < names.len()
        invariant
            v <= names@.len(),
            all == name_views(names@),
            forall|w: usize, j: usize| #[trigger]
                out@.contains((w, j)) <==> (w < v && is_first(all, w as int, j as int)),
            forall|a: int, b: int|
                0 <= a < b < out@.len() ==> comes_before(
                    (#[trigger] out@[a]).0 as int,
                    out@[a].1 as int,
                    (#[trigger] out@[b]).0 as int,
                    out@[b].1 as int,
                ),
        decreases names@.len() - v,
    {
        let mut i: usize = 0;
        while i < names[v].len()
            invariant
                v < names@.len(),
                i <= names@[v as int]@.len(),
                all == name_views(names@),
                forall|w: usize, j: usize| #[trigger]
                    out@.contains((w, j)) <==> (comes_before(w as int, j as int, v as int, i as int)
                        && is_first(all, w as int, j as int)),
                forall|a: int, b: int|
                    0 <= a < b < out@.len() ==> comes_before(
                        (#[trigger] out@[a]).0 as int,
                        out@[a].1 as int,
                        (#[trigger] out@[b]).0 as int,
                        out@[b].1 as int,
                    ),
            decreases names@[v as int]@.len() - i,
        {
            let ghost before = out@;
            assert(all[v as int].len() == names@[v as int]@.len());
            let again = named_before(names, v, i);
            if !again {
                out.push((v, i));
            }
            proof {
                assert forall|w: usize, j: usize| #[trigger]
                    out@.contains((w, j)) <==> (comes_before(
                        w as int,
                        j as int,
                        v as int,
                        i + 1,
                    ) && is_first(all, w as int, j as int)) by {
                    assert(before.contains((w, j)) <==> (comes_before(
                        w as int,
                        j as int,
                        v as int,
                        i as int,
                    ) && is_first(all, w as int, j as int)));
                    if before.contains((w, j)) {
                        let k = choose|k: int| 0 <= k < before.len() && before[k] == (w, j);
                        assert(out@[k] == (w, j));
                    }
                    if !again && (w, j) == (v, i) {
                        assert(out@[before.len() as int] == (w, j));
                    }
                    if out@.contains((w, j)) && !before.contains((w, j)) {
                        let k = choose|k: int| 0 <= k < out@.len() && out@[k] == (w, j);
                        if k < before.len() {
                            assert(before[k] == (w, j));
                        }
                    }
                }
                assert forall|a: int, b: int| 0 <= a < b < out@.len() implies comes_before(
                    (#[trigger] out@[a]).0 as int,
                    out@[a].1 as int,
                    (#[trigger] out@[b]).0 as int,
                    out@[b].1 as int,
                ) by {
                    if b < before.len() {
                        assert(before[a] == out@[a] && before[b] == out@[b]);
                    } else {
                        assert(before[a] == out@[a]);
                        assert(before.contains((out@[a].0, out@[a].1)));
                    }
                }
            }
            i = i + 1;
        }
        proof {
            assert forall|w: usize, j: usize| #[trigger]
                out@.contains((w, j)) <==> (w < v + 1 && is_first(all, w as int, j as int)) by {
                assert(all[v as int].len() == names@[v as int]@.len());
            }
        }
        v = v + 1;
    }
    out
}

/// The name a script reads, without the mark that lets a word of the language
/// be one.
pub open spec fn bare_name(ident: Seq<char>) -> Seq<char>
    decreases ident.len(),
{
    if ident.len() >= 2 && starts_with(ident, "r#"@) {
        bare_name(ident.skip(2))
    } else {
        ident
    }
}

/// The name a script reads.
pub fn variable_name(ident: &str) -> (r: String)
    ensures
        r@ == bare_name(ident@),
    decreases ident@.len(),
{
    proof {
        reveal_strlit("r#");
        assert("r#"@.len() == 2);
    }
    match strip_prefix(ident, "r#") {
        Some(rest) => variable_name(rest),
        None => ident.to_owned(),
    }
}

} // verus!
