//! The registry: a process-wide table from tag strings to variant kinds.
//!
//! The registry is the single source of truth for which variants exist on
//! the wire.  It is built once with the built-in tags and may be extended
//! with further tags before steady-state traffic; an existing entry is never
//! overwritten, so the first registration of a tag stays authoritative.
//! Lookups take the registry by shared reference and never mutate it, so any
//! number of concurrent lookups is safe.

use vstd::prelude::*;
use vstd::string::StringExecFns;
use crate::error::ErrorKind;
use crate::error::ShapeError;

verus! {

broadcast use vstd::std_specs::vec::group_vec_axioms, vstd::seq::group_seq_axioms;

/// The kind of shape a registered tag decodes to.
#[derive(Clone, Copy, Debug, PartialEq, Eq, Structural)]
pub enum ShapeKind {
    Circle,
    Square,
    Rectangle,
    Composite,
}

/// Looks a tag up: the first entry with that tag wins.
pub open spec fn spec_lookup(
    entries: Seq<(Seq<char>, ShapeKind)>,
    tag: Seq<char>,
) -> Option<ShapeKind>
    decreases entries.len(),
{
    if entries.len() == 0 {
        None
    } else if entries.first().0 == tag {
        Some(entries.first().1)
    } else {
        spec_lookup(entries.drop_first(), tag)
    }
}

/// No tag occurs twice.
pub open spec fn tags_unique(entries: Seq<(Seq<char>, ShapeKind)>) -> bool {
    forall|i: int, j: int|
        0 <= i < j < entries.len() ==> (#[trigger] entries[i]).0 != (#[trigger] entries[j]).0
}

/// The four built-in bindings, in registration order.
pub open spec fn builtin_entries() -> Seq<(Seq<char>, ShapeKind)> {
    seq![
        ("Circle"@, ShapeKind::Circle),
        ("Square"@, ShapeKind::Square),
        ("Rectangle"@, ShapeKind::Rectangle),
        ("Composite"@, ShapeKind::Composite),
    ]
}

/// Every built-in tag resolves to its kind.
pub open spec fn has_builtins(entries: Seq<(Seq<char>, ShapeKind)>) -> bool {
    &&& spec_lookup(entries, "Circle"@) == Some(ShapeKind::Circle)
    &&& spec_lookup(entries, "Square"@) == Some(ShapeKind::Square)
    &&& spec_lookup(entries, "Rectangle"@) == Some(ShapeKind::Rectangle)
    &&& spec_lookup(entries, "Composite"@) == Some(ShapeKind::Composite)
}

/// Appending an entry changes only the lookup of a tag that was absent.
pub proof fn lemma_lookup_push(
    entries: Seq<(Seq<char>, ShapeKind)>,
    tag: Seq<char>,
    kind: ShapeKind,
    t: Seq<char>,
)
    ensures
        spec_lookup(entries.push((tag, kind)), t) == (if spec_lookup(entries, t) is Some {
            spec_lookup(entries, t)
        } else if t == tag {
            Some(kind)
        } else {
            None
        }),
    decreases entries.len(),
{
    let pushed = entries.push((tag, kind));
    if entries.len() == 0 {
        assert(pushed.first() == (tag, kind));
        assert(pushed.drop_first() =~= Seq::<(Seq<char>, ShapeKind)>::empty());
        assert(spec_lookup(Seq::<(Seq<char>, ShapeKind)>::empty(), t) is None);
    } else {
        assert(pushed.first() == entries.first());
        assert(pushed.drop_first() =~= entries.drop_first().push((tag, kind)));
        lemma_lookup_push(entries.drop_first(), tag, kind, t);
    }
}

/// The registry.
pub struct Registry {
    entries: Vec<(String, ShapeKind)>,
}

impl View for Registry {
    type V = Seq<(Seq<char>, ShapeKind)>;

    closed spec fn view(&self) -> Seq<(Seq<char>, ShapeKind)> {
        Seq::new(self.entries@.len(), |i: int| (self.entries@[i].0@, self.entries@[i].1))
    }
}

impl Registry {
    /// Tags are unique, so the table has one meaning per tag.
    pub open spec fn wf(&self) -> bool {
        tags_unique(self@)
    }

    /// Builds the registry with the built-in tags pre-registered.
    pub fn new() -> (r: Registry)
        ensures
            r@ == builtin_entries(),
            r.wf(),
            has_builtins(r@),
    {
        let mut entries: Vec<(String, ShapeKind)> = Vec::new();
        entries.push((String::from_str("Circle"), ShapeKind::Circle));
        entries.push((String::from_str("Square"), ShapeKind::Square));
        entries.push((String::from_str("Rectangle"), ShapeKind::Rectangle));
        entries.push((String::from_str("Composite"), ShapeKind::Composite));
        let r = Registry { entries };
        proof {
            assert(r@ =~= builtin_entries());
            lemma_builtin_tags_distinct();
            assert(r.wf());
            reveal_with_fuel(spec_lookup, 5);
            let b = builtin_entries();
            assert(b.drop_first() =~= seq![
                ("Square"@, ShapeKind::Square),
                ("Rectangle"@, ShapeKind::Rectangle),
                ("Composite"@, ShapeKind::Composite),
            ]);
            assert(b.drop_first().drop_first() =~= seq![
                ("Rectangle"@, ShapeKind::Rectangle),
                ("Composite"@, ShapeKind::Composite),
            ]);
            assert(b.drop_first().drop_first().drop_first() =~= seq![
                ("Composite"@, ShapeKind::Composite),
            ]);
            assert(spec_lookup(b, "Circle"@) == Some(ShapeKind::Circle));
            assert(spec_lookup(b, "Square"@) == Some(ShapeKind::Square));
            assert(spec_lookup(b, "Rectangle"@) == Some(ShapeKind::Rectangle));
            assert(spec_lookup(b, "Composite"@) == Some(ShapeKind::Composite));
        }
        r
    }

    /// Registers a new tag.  Fails with `DuplicateTag` if the tag is already
    /// present, leaving the registry unchanged, so the first registration of
    /// a tag stays authoritative; lookups of other tags are unaffected
    /// either way.
    #[verifier::loop_isolation(false)]
    pub fn register(&mut self, tag: String, kind: ShapeKind) -> (r: Result<(), ShapeError>)
        ensures
            (spec_lookup(old(self)@, tag@) is None) <==> r is Ok,
            r is Ok ==> final(self)@ == old(self)@.push((tag@, kind)),
            r is Ok ==> spec_lookup(final(self)@, tag@) == Some(kind),
            r matches Err(e) ==> final(self)@ == old(self)@ && e.kind == ErrorKind::DuplicateTag
                && e.path@ == Seq::<usize>::empty(),
            forall|t: Seq<char>|
                t != tag@ ==> spec_lookup(final(self)@, t) == spec_lookup(old(self)@, t),
            old(self).wf() ==> final(self).wf(),
            has_builtins(old(self)@) ==> has_builtins(final(self)@),
    {
        let ghost orig: Seq<(Seq<char>, ShapeKind)> = self@;
        proof {
            assert(orig.subrange(0, orig.len() as int) =~= orig);
        }
        let mut idx: usize = 0;
        while idx < self.entries.len()
            invariant
                idx <= self.entries.len(),
                self@ == orig,
                spec_lookup(orig.subrange(idx as int, orig.len() as int), tag@) == spec_lookup(
                    orig,
                    tag@,
                ),
                forall|i: int| 0 <= i < idx ==> (#[trigger] orig[i]).0 != tag@,
            decreases self.entries.len() - idx,
        {
            let hit = self.entries[idx].0 == tag;
            proof {
                let rest = orig.subrange(idx as int, orig.len() as int);
                assert(rest.first() == orig[idx as int]);
                assert(rest.drop_first() =~= orig.subrange(idx as int + 1, orig.len() as int));
            }
            if hit {
                return Err(ShapeError::at_root(ErrorKind::DuplicateTag));
            }
            idx = idx + 1;
        }
        proof {
            assert(orig.subrange(orig.len() as int, orig.len() as int) =~= Seq::<
                (Seq<char>, ShapeKind),
            >::empty());
            assert(spec_lookup(orig, tag@) is None);
        }
        let ghost tag_view: Seq<char> = tag@;
        self.entries.push((tag, kind));
        proof {
            assert(self@ =~= orig.push((tag_view, kind)));
            assert forall|t: Seq<char>| t != tag_view implies spec_lookup(self@, t) == spec_lookup(
                orig,
                t,
            ) by {
                lemma_lookup_push(orig, tag_view, kind, t);
            }
            lemma_lookup_push(orig, tag_view, kind, tag_view);
            if tags_unique(orig) {
                assert forall|i: int, j: int|
                    0 <= i < j < self@.len() implies (#[trigger] self@[i]).0 != (
                    #[trigger] self@[j]).0 by {
                    if j == self@.len() - 1 {
                        assert(orig[i].0 != tag_view);
                    }
                }
            }
        }
        Ok(())
    }

    /// Looks a tag up, failing with `UnknownVariant` when no entry exists.
    #[verifier::loop_isolation(false)]
    pub fn lookup(&self, tag: &String) -> (r: Result<ShapeKind, ShapeError>)
        ensures
            spec_lookup(self@, tag@) matches Some(k) ==> r == Ok::<ShapeKind, ShapeError>(k),
            spec_lookup(self@, tag@) is None ==> (r matches Err(e) && e.kind
                == ErrorKind::UnknownVariant && e.path@ == Seq::<usize>::empty()),
    {
        proof {
            assert(self@.subrange(0, self@.len() as int) =~= self@);
        }
        let mut idx: usize = 0;
        while idx < self.entries.len()
            invariant
                idx <= self.entries.len(),
                spec_lookup(self@.subrange(idx as int, self@.len() as int), tag@) == spec_lookup(
                    self@,
                    tag@,
                ),
            decreases self.entries.len() - idx,
        {
            let hit = self.entries[idx].0 == *tag;
            proof {
                let rest = self@.subrange(idx as int, self@.len() as int);
                assert(rest.first() == self@[idx as int]);
                assert(rest.drop_first() =~= self@.subrange(idx as int + 1, self@.len() as int));
            }
            if hit {
                return Ok(self.entries[idx].1);
            }
            idx = idx + 1;
        }
        proof {
            assert(self@.subrange(self@.len() as int, self@.len() as int) =~= Seq::<
                (Seq<char>, ShapeKind),
            >::empty());
        }
        Err(ShapeError::at_root(ErrorKind::UnknownVariant))
    }
}

/// The four built-in tags are pairwise distinct strings.
pub proof fn lemma_builtin_tags_distinct()
    ensures
        "Circle"@ != "Square"@,
        "Circle"@ != "Rectangle"@,
        "Circle"@ != "Composite"@,
        "Square"@ != "Rectangle"@,
        "Square"@ != "Composite"@,
        "Rectangle"@ != "Composite"@,
{
    reveal_strlit("Circle");
    reveal_strlit("Square");
    reveal_strlit("Rectangle");
    reveal_strlit("Composite");
    assert("Circle"@[0] != "Square"@[0]);
    assert("Circle"@.len() != "Rectangle"@.len());
    assert("Circle"@.len() != "Composite"@.len());
    assert("Square"@.len() != "Rectangle"@.len());
    assert("Square"@.len() != "Composite"@.len());
    assert("Rectangle"@[0] != "Composite"@[0]);
}

} // verus!
