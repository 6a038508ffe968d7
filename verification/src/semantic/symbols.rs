//! The symbol table of a function: the type of each parameter and local,
//! by name, where a later declaration of a name replaces an earlier one.

use vstd::prelude::*;
use crate::text::{push_text, same_text, text_is};
use crate::parser::ir::{DeclV, FunctionV, Local, Type, TypeV};

verus! {

/// The names and types declared so far, in order.
pub struct SymbolTable {
    scope: Vec<(String, Type)>,
}

/// The map that a list of declarations gives, later ones winning.
pub open spec fn scope_map(entries: Seq<(Seq<char>, TypeV)>) -> Map<Seq<char>, TypeV>
    decreases entries.len(),
{
    if entries.len() == 0 {
        Map::empty()
    } else {
        scope_map(entries.drop_last()).insert(entries.last().0, entries.last().1)
    }
}

/// The names and types of a list of declarations.
pub open spec fn entry_values(s: Seq<(String, Type)>) -> Seq<(Seq<char>, TypeV)> {
    s.map_values(|e: (String, Type)| (e.0@, e.1@))
}

/// The message for a local with no declared type.
pub open spec fn undeclared_message(name: Seq<char>) -> Seq<char> {
    "%"@ + name + " is used in your code, but has no type! Consider declering it."@
}

/// The type of a name, or the message for a name with no declared type.
pub open spec fn look_up(table: Map<Seq<char>, TypeV>, name: Seq<char>) -> Result<TypeV, Seq<char>> {
    if table.dom().contains(name) {
        Ok(table[name])
    } else {
        Err(undeclared_message(name))
    }
}

/// Declarations added to a table in order, later ones winning.
pub open spec fn declare_all(table: Map<Seq<char>, TypeV>, decls: Seq<DeclV>) -> Map<Seq<char>, TypeV>
    decreases decls.len(),
{
    if decls.len() == 0 {
        table
    } else {
        declare_all(table, decls.drop_last()).insert(decls.last().name, decls.last().typ)
    }
}

/// The symbol table of a function: its parameters, then its locals.
pub open spec fn symbols(f: FunctionV) -> Map<Seq<char>, TypeV> {
    let params = match f.params {
        Some(ps) => ps,
        None => Seq::empty(),
    };
    declare_all(declare_all(Map::empty(), params), f.locals)
}

proof fn lemma_scope_map_tail(entries: Seq<(Seq<char>, TypeV)>, i: int, name: Seq<char>)
    requires
        0 <= i <= entries.len(),
        forall|k: int| i <= k < entries.len() ==> (#[trigger] entries[k]).0 != name,
    ensures
        scope_map(entries).dom().contains(name) == scope_map(entries.take(i)).dom().contains(name),
        scope_map(entries).dom().contains(name) ==> scope_map(entries)[name] == scope_map(entries.take(i))[name],
    decreases entries.len() - i,
{
    if i < entries.len() {
        let shorter = entries.drop_last();
        assert(shorter.take(i) =~= entries.take(i));
        assert(forall|k: int| i <= k < shorter.len() ==> (#[trigger] shorter[k]).0 == entries[k].0);
        lemma_scope_map_tail(shorter, i, name);
    } else {
        assert(entries.take(i) =~= entries);
    }
}

impl View for SymbolTable {
    type V = Map<Seq<char>, TypeV>;

    closed spec fn view(&self) -> Map<Seq<char>, TypeV> {
        scope_map(entry_values(self.scope@))
    }
}

impl SymbolTable {
    /// An empty table.
    pub fn new() -> (t: SymbolTable)
        ensures
            t@ == Map::<Seq<char>, TypeV>::empty(),
    {
        let t = SymbolTable { scope: Vec::new() };
        assert(entry_values(t.scope@) =~= Seq::<(Seq<char>, TypeV)>::empty());
        t
    }

    /// Declares `name` with type `typealt`, replacing an earlier declaration.
    pub fn insert(&mut self, name: &str, typealt: Type)
        ensures
            final(self)@ == old(self)@.insert(name@, typealt@),
    {
        let ghost before = self.scope@;
        let ghost tv = typealt@;
        let mut key = String::new();
        push_text(&mut key, name);
        self.scope.push((key, typealt));
        proof {
            assert(entry_values(self.scope@).drop_last() =~= entry_values(before));
        }
    }

    /// The type declared for a local, or the message that it has none.
    pub fn lookup(&self, local: &Local) -> (r: Result<Type, String>)
        ensures
            match look_up(self@, local@) {
                Ok(t) => r matches Ok(x) && x@ == t,
                Err(m) => r matches Err(e) && e@ == m,
            },
    {
        let ghost entries = entry_values(self.scope@);
        let mut i: usize = self.scope.len();
        while i > 0
            invariant
                entries == entry_values(self.scope@),
                i <= self.scope@.len(),
                forall|k: int| i <= k < entries.len() ==> (#[trigger] entries[k]).0 != local@,
            decreases i,
        {
            let entry = &self.scope[i - 1];
            if same_text(&entry.0, &local.ident.string) {
                proof {
                    lemma_scope_map_tail(entries, i as int, local@);
                    let pre = entries.take(i as int);
                    assert(pre.drop_last() =~= entries.take(i - 1));
                    assert(pre.last() == entries[i - 1]);
                    assert(entries[i - 1] == (self.scope@[i - 1].0@, self.scope@[i - 1].1@));
                    assert(scope_map(pre) == scope_map(pre.drop_last()).insert(pre.last().0, pre.last().1));
                    assert(scope_map(pre).dom().contains(local@));
                    assert(scope_map(pre)[local@] == entry.1@);
                    assert(self@ == scope_map(entries));
                    assert(look_up(self@, local@) == Ok::<TypeV, Seq<char>>(entry.1@));
                }
                return Ok(entry.1.copy());
            }
            i = i - 1;
        }
        proof {
            lemma_scope_map_tail(entries, 0, local@);
            assert(entries.take(0) =~= Seq::<(Seq<char>, TypeV)>::empty());
        }
        let mut message = String::new();
        push_text(&mut message, "%");
        push_text(&mut message, local.ident.string.as_str());
        push_text(&mut message, " is used in your code, but has no type! Consider declering it.");
        Err(message)
    }
}

/// The first error that `f` finds in the elements of `s`, in order.
pub open spec fn first_error<A>(s: Seq<A>, f: spec_fn(A) -> Option<Seq<char>>) -> Option<Seq<char>>
    decreases s.len(),
{
    if s.len() == 0 {
        None
    } else {
        match f(s[0]) {
            Some(e) => Some(e),
            None => first_error(s.drop_first(), f),
        }
    }
}

/// One step of `first_error` from position `i`.
pub proof fn lemma_first_error_step<A>(s: Seq<A>, i: int, f: spec_fn(A) -> Option<Seq<char>>)
    requires
        0 <= i < s.len(),
    ensures
        first_error(s.skip(i), f) == match f(s[i]) {
            Some(e) => Some(e),
            None => first_error(s.skip(i + 1), f),
        },
{
    assert(s.skip(i).drop_first() =~= s.skip(i + 1));
    assert(s.skip(i)[0] == s[i]);
}

/// `first_error` over two sequences one after the other.
pub proof fn lemma_first_error_concat<A>(a: Seq<A>, b: Seq<A>, f: spec_fn(A) -> Option<Seq<char>>)
    ensures
        first_error(a + b, f) == match first_error(a, f) {
            Some(e) => Some(e),
            None => first_error(b, f),
        },
    decreases a.len(),
{
    if a.len() > 0 {
        assert((a + b).drop_first() =~= a.drop_first() + b);
        assert((a + b)[0] == a[0]);
        lemma_first_error_concat(a.drop_first(), b, f);
    } else {
        assert(a + b =~= b);
    }
}

/// `first_error` over one element.
pub proof fn lemma_first_error_one<A>(x: A, f: spec_fn(A) -> Option<Seq<char>>)
    ensures
        first_error(seq![x], f) == f(x),
{
    assert(seq![x].drop_first() =~= Seq::<A>::empty());
    assert(first_error(Seq::<A>::empty(), f) is None);
    assert(seq![x][0] == x);
}

/// `first_error` over two elements.
pub proof fn lemma_first_error_two<A>(x: A, y: A, f: spec_fn(A) -> Option<Seq<char>>)
    ensures
        first_error(seq![x, y], f) == match f(x) {
            Some(e) => Some(e),
            None => f(y),
        },
{
    assert(seq![x, y] =~= seq![x] + seq![y]);
    lemma_first_error_concat(seq![x], seq![y], f);
    lemma_first_error_one(x, f);
    lemma_first_error_one(y, f);
}

/// `first_error` over nothing.
pub proof fn lemma_first_error_none<A>(f: spec_fn(A) -> Option<Seq<char>>)
    ensures
        first_error(Seq::<A>::empty(), f) is None,
{
}

/// `first_error` over all of `s` starts at position 0 and ends with none.
pub proof fn lemma_first_error_ends<A>(s: Seq<A>, f: spec_fn(A) -> Option<Seq<char>>)
    ensures
        first_error(s.skip(0), f) == first_error(s, f),
        first_error(s.skip(s.len() as int), f) is None,
{
    assert(s.skip(0) =~= s);
    assert(s.skip(s.len() as int) =~= Seq::<A>::empty());
}

/// Where `first_error` finds nothing, `f` finds nothing in any element.
pub proof fn lemma_first_error_none_each<A>(s: Seq<A>, f: spec_fn(A) -> Option<Seq<char>>)
    requires
        first_error(s, f) is None,
    ensures
        forall|k: int| 0 <= k < s.len() ==> f(#[trigger] s[k]) is None,
    decreases s.len(),
{
    if s.len() > 0 {
        lemma_first_error_none_each(s.drop_first(), f);
        assert forall|k: int| 0 <= k < s.len() implies f(#[trigger] s[k]) is None by {
            if k > 0 {
                assert(s[k] == s.drop_first()[k - 1]);
            }
        }
    }
}

/// A lookup after a declaration: the declared name has the declared type,
/// and every other name keeps what it had.
pub proof fn law_lookup_after_insert(
    table: Map<Seq<char>, TypeV>,
    name: Seq<char>,
    typ: TypeV,
    other: Seq<char>,
)
    ensures
        look_up(table.insert(name, typ), name) == Ok::<TypeV, Seq<char>>(typ),
        other != name ==> look_up(table.insert(name, typ), other) == look_up(table, other),
{
}

} // verus!
