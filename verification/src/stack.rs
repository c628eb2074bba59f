use vstd::prelude::*;

use crate::ident::Ident;
use crate::types::Type;

verus! {

/// Mathematical model of an environment: the local bindings, in order, and
/// an optional parent environment for chained lookup.
pub ghost struct StackV {
    pub symbols: Seq<(Seq<char>, Type)>,
    pub parent: Option<Box<StackV>>,
}

/// The bindings a list of (identifier, value) pairs stands for.
pub open spec fn entries(s: Seq<(Ident, Type)>) -> Seq<(Seq<char>, Type)> {
    s.map_values(|p: (Ident, Type)| (p.0@, p.1))
}

/// The first binding of a name in a binding list, scanning left to right.
pub open spec fn find_in(symbols: Seq<(Seq<char>, Type)>, name: Seq<char>) -> Option<Type>
    decreases symbols.len(),
{
    if symbols.len() == 0 {
        None
    } else if symbols[0].0 == name {
        Some(symbols[0].1)
    } else {
        find_in(symbols.drop_first(), name)
    }
}

/// A binding list with a name rebound: the first occurrence replaced, or the
/// binding appended when the name is absent.
pub open spec fn set_in(symbols: Seq<(Seq<char>, Type)>, name: Seq<char>, value: Type) -> Seq<
    (Seq<char>, Type),
>
    decreases symbols.len(),
{
    if symbols.len() == 0 {
        seq![(name, value)]
    } else if symbols[0].0 == name {
        seq![(name, value)] + symbols.drop_first()
    } else {
        seq![symbols[0]] + set_in(symbols.drop_first(), name, value)
    }
}

/// A binding list extended by another, left to right: the right-hand
/// bindings override the left-hand ones.
pub open spec fn combine_in(a: Seq<(Seq<char>, Type)>, b: Seq<(Seq<char>, Type)>) -> Seq<
    (Seq<char>, Type),
>
    decreases b.len(),
{
    if b.len() == 0 {
        a
    } else {
        combine_in(set_in(a, b[0].0, b[0].1), b.drop_first())
    }
}

/// Lookup through the chain: the local bindings first, then the parent.
pub open spec fn spec_lookup(s: StackV, name: Seq<char>) -> Option<Type>
    decreases s,
{
    match find_in(s.symbols, name) {
        Some(t) => Some(t),
        None => match s.parent {
            Some(p) => spec_lookup(*p, name),
            None => None,
        },
    }
}

/// Rebinding in the model: writes always target the local bindings.
pub open spec fn spec_set(s: StackV, name: Seq<char>, value: Type) -> StackV {
    StackV { symbols: set_in(s.symbols, name, value), parent: s.parent }
}

/// Looking up a name just rebound finds the new value; any other name is
/// untouched.
pub proof fn lemma_find_set(
    symbols: Seq<(Seq<char>, Type)>,
    name: Seq<char>,
    value: Type,
    other: Seq<char>,
)
    ensures
        find_in(set_in(symbols, name, value), other) == if other == name {
            Some(value)
        } else {
            find_in(symbols, other)
        },
    decreases symbols.len(),
{
    if symbols.len() == 0 {
        assert(set_in(symbols, name, value) == seq![(name, value)]);
        assert(set_in(symbols, name, value).drop_first() =~= Seq::<(Seq<char>, Type)>::empty());
    } else if symbols[0].0 == name {
        let s2 = set_in(symbols, name, value);
        assert(s2.drop_first() =~= symbols.drop_first());
    } else {
        let s2 = set_in(symbols, name, value);
        assert(s2.drop_first() =~= set_in(symbols.drop_first(), name, value));
        lemma_find_set(symbols.drop_first(), name, value, other);
    }
}

/// The mutable variable environment: a mapping from identifier to value,
/// with an optional parent environment for nested lookup.
#[derive(Debug)]
pub struct Stack {
    symbols: Vec<(Ident, Type)>,
    parent_stack: Option<Box<Stack>>,
}

impl View for Stack {
    type V = StackV;

    closed spec fn view(&self) -> StackV
        decreases self,
    {
        StackV {
            symbols: entries(self.symbols@),
            parent: match self.parent_stack {
                Some(ref b) => Some(Box::new((**b)@)),
                None => None,
            },
        }
    }
}

impl Clone for Stack {
    fn clone(&self) -> (r: Self)
        ensures
            r@ == self@,
        decreases self,
    {
        let mut symbols: Vec<(Ident, Type)> = Vec::new();
        let mut i: usize = 0;
        while i < self.symbols.len()
            invariant
                i <= self.symbols.len(),
                entries(symbols@) == entries(self.symbols@.take(i as int)),
            decreases self.symbols.len() - i,
        {
            let entry = (self.symbols[i].0.clone(), self.symbols[i].1);
            let ghost prev = symbols@;
            symbols.push(entry);
            proof {
                assert(symbols@ == prev.push(entry));
                assert(entries(prev).len() == prev.len());
                assert(entries(self.symbols@.take(i as int)).len() == i as int);
                assert(prev.len() == i as int);
                assert forall|j: int| 0 <= j < i + 1 implies entries(symbols@)[j] == entries(
                    self.symbols@.take(i + 1),
                )[j] by {
                    assert(self.symbols@.take(i + 1)[j] == self.symbols@[j]);
                    if j < i {
                        assert(entries(prev)[j] == entries(self.symbols@.take(i as int))[j]);
                        assert(self.symbols@.take(i as int)[j] == self.symbols@[j]);
                        assert(symbols@[j] == prev[j]);
                    } else {
                        assert(symbols@[j] == entry);
                    }
                }
                assert(entries(symbols@) =~= entries(self.symbols@.take(i + 1)));
            }
            i = i + 1;
        }
        proof {
            assert(self.symbols@.take(self.symbols@.len() as int) =~= self.symbols@);
        }
        let parent_stack = match &self.parent_stack {
            Some(b) => Some(Box::new((**b).clone())),
            None => None,
        };
        let r = Stack { symbols, parent_stack };
        assert(r@ =~= self@);
        r
    }
}

impl Stack {
    pub fn new(parent_stack: Option<Stack>) -> (r: Self)
        ensures
            r@.symbols =~= Seq::<(Seq<char>, Type)>::empty(),
            r@.parent == match parent_stack {
                Some(p) => Some(Box::new(p@)),
                None => None,
            },
    {
        Self {
            symbols: Vec::new(),
            parent_stack: match parent_stack {
                Some(s) => Some(Box::new(s)),
                None => None,
            },
        }
    }

    pub fn get(&self, name: &Ident) -> (r: Option<Type>)
        ensures
            r == spec_lookup(self@, name@),
        decreases self,
    {
        let ghost s = self@.symbols;
        let mut i: usize = 0;
        proof {
            assert(s.skip(0) =~= s);
        }
        while i < self.symbols.len()
            invariant
                i <= self.symbols.len(),
                s == self@.symbols,
                find_in(s, name@) == find_in(s.skip(i as int), name@),
            decreases self.symbols.len() - i,
        {
            proof {
                assert(s[i as int] == (self.symbols@[i as int].0@, self.symbols@[i as int].1));
                assert(s.skip(i as int)[0] == s[i as int]);
            }
            if self.symbols[i].0.same_name(name) {
                return Some(self.symbols[i].1);
            }
            proof {
                assert(s.skip(i as int).drop_first() =~= s.skip(i + 1));
            }
            i = i + 1;
        }
        proof {
            assert(s.skip(self.symbols@.len() as int) =~= Seq::<(Seq<char>, Type)>::empty());
        }
        match &self.parent_stack {
            Some(p) => (**p).get(name),
            None => None,
        }
    }

    pub fn set(&mut self, name: Ident, value: Type)
        ensures
            final(self)@ == spec_set(old(self)@, name@, value),
    {
        let ghost s = self@.symbols;
        let mut i: usize = 0;
        while i < self.symbols.len()
            invariant
                i <= self.symbols.len(),
                self@ == old(self)@,
                s == self@.symbols,
                forall|j: int| 0 <= j < i ==> #[trigger] s[j].0 != name@,
            decreases self.symbols.len() - i,
        {
            proof {
                assert(s[i as int] == (self.symbols@[i as int].0@, self.symbols@[i as int].1));
            }
            if self.symbols[i].0.same_name(&name) {
                let entry = (name, value);
                self.symbols.set(i, entry);
                proof {
                    lemma_set_in_found(s, name@, value, i as int);
                    assert forall|j: int| 0 <= j < self@.symbols.len() implies self@.symbols[j]
                        == s.update(i as int, (name@, value))[j] by {
                        assert(self@.symbols[j] == (
                            self.symbols@[j].0@,
                            self.symbols@[j].1,
                        ));
                    }
                    assert(self@.symbols =~= s.update(i as int, (name@, value)));
                    assert(self@ =~= spec_set(old(self)@, name@, value));
                }
                return ;
            }
            i = i + 1;
        }
        self.symbols.push((name, value));
        proof {
            lemma_set_in_missing(s, name@, value);
            assert forall|j: int| 0 <= j < self@.symbols.len() implies self@.symbols[j] == s.push(
                (name@, value),
            )[j] by {
                assert(self@.symbols[j] == (self.symbols@[j].0@, self.symbols@[j].1));
            }
            assert(self@.symbols =~= s.push((name@, value)));
            assert(self@ =~= spec_set(old(self)@, name@, value));
        }
    }

    pub fn combine(&mut self, other: Self)
        ensures
            final(self)@.symbols == combine_in(old(self)@.symbols, other@.symbols),
            final(self)@.parent == old(self)@.parent,
    {
        let ghost a0 = self@.symbols;
        let ghost b = other@.symbols;
        let mut i: usize = 0;
        proof {
            assert(b.take(0) =~= Seq::<(Seq<char>, Type)>::empty());
        }
        while i < other.symbols.len()
            invariant
                i <= other.symbols.len(),
                b == other@.symbols,
                self@.symbols == combine_in(a0, b.take(i as int)),
                self@.parent == old(self)@.parent,
            decreases other.symbols.len() - i,
        {
            proof {
                assert(b[i as int] == (other.symbols@[i as int].0@, other.symbols@[i as int].1));
            }
            let entry_name = other.symbols[i].0.clone();
            let entry_value = other.symbols[i].1;
            proof {
                assert(entry_name@ == b[i as int].0);
                assert(entry_value == b[i as int].1);
            }
            self.set(entry_name, entry_value);
            proof {
                assert(b.take(i + 1) =~= b.take(i as int).push(b[i as int]));
                lemma_combine_in_push(a0, b.take(i as int), b[i as int]);
                assert(self@.symbols == set_in(
                    combine_in(a0, b.take(i as int)),
                    b[i as int].0,
                    b[i as int].1,
                ));
                assert(self@.symbols == combine_in(a0, b.take(i + 1)));
            }
            i = i + 1;
        }
        proof {
            assert(b.take(other.symbols@.len() as int) =~= b);
        }
    }
}

/// Rebinding a name that first occurs at position `i` replaces exactly that
/// entry.
proof fn lemma_set_in_found(
    symbols: Seq<(Seq<char>, Type)>,
    name: Seq<char>,
    value: Type,
    i: int,
)
    requires
        0 <= i < symbols.len(),
        symbols[i].0 == name,
        forall|j: int| 0 <= j < i ==> #[trigger] symbols[j].0 != name,
    ensures
        set_in(symbols, name, value) =~= symbols.update(i, (name, value)),
    decreases i,
{
    if i == 0 {
        assert(set_in(symbols, name, value) =~= seq![(name, value)] + symbols.drop_first());
    } else {
        assert(symbols.drop_first()[i - 1].0 == name);
        assert(forall|j: int|
            0 <= j < i - 1 ==> #[trigger] symbols.drop_first()[j].0 == symbols[j + 1].0);
        lemma_set_in_found(symbols.drop_first(), name, value, i - 1);
        assert(set_in(symbols, name, value) =~= seq![symbols[0]] + set_in(
            symbols.drop_first(),
            name,
            value,
        ));
        assert(symbols.update(i, (name, value)).drop_first() =~= symbols.drop_first().update(
            i - 1,
            (name, value),
        ));
    }
}

/// Rebinding an absent name appends the binding.
proof fn lemma_set_in_missing(symbols: Seq<(Seq<char>, Type)>, name: Seq<char>, value: Type)
    requires
        forall|j: int| 0 <= j < symbols.len() ==> #[trigger] symbols[j].0 != name,
    ensures
        set_in(symbols, name, value) =~= symbols.push((name, value)),
    decreases symbols.len(),
{
    if symbols.len() == 0 {
    } else {
        assert(forall|j: int|
            0 <= j < symbols.drop_first().len() ==> #[trigger] symbols.drop_first()[j].0
                == symbols[j + 1].0);
        lemma_set_in_missing(symbols.drop_first(), name, value);
        assert(symbols.push((name, value)).drop_first() =~= symbols.drop_first().push(
            (name, value),
        ));
    }
}

/// Extending by one more binding on the right is one more rebind.
proof fn lemma_combine_in_push(
    a: Seq<(Seq<char>, Type)>,
    b: Seq<(Seq<char>, Type)>,
    x: (Seq<char>, Type),
)
    ensures
        combine_in(a, b.push(x)) == set_in(combine_in(a, b), x.0, x.1),
    decreases b.len(),
{
    let s2 = b.push(x);
    if b.len() == 0 {
        assert(combine_in(a, b) == a);
        assert(s2[0] == x);
        assert(s2.drop_first() =~= Seq::<(Seq<char>, Type)>::empty());
        assert(combine_in(a, s2) == combine_in(set_in(a, x.0, x.1), s2.drop_first()));
        assert(combine_in(set_in(a, x.0, x.1), s2.drop_first()) == set_in(a, x.0, x.1));
    } else {
        assert(s2[0] == b[0]);
        assert(s2.drop_first() =~= b.drop_first().push(x));
        lemma_combine_in_push(set_in(a, b[0].0, b[0].1), b.drop_first(), x);
        assert(combine_in(a, s2) == combine_in(set_in(a, b[0].0, b[0].1), s2.drop_first()));
    }
}

} // verus!
