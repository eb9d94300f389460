//! Membership checks between lists, and a record of a path to clean up.

use vstd::prelude::*;
use vstd::std_specs::cmp::PartialEqSpec;

use crate::text::chars_of;

verus! {

/// Whether some item of `container` equals `item`.
pub open spec fn has_equal<T: PartialEq>(container: Seq<T>, item: T) -> bool {
    exists|j: int| 0 <= j < container.len() && (#[trigger] container[j]).eq_spec(&item)
}

/// Whether some item of `container` equals `item`.
fn holds<T: PartialEq>(container: &[T], item: &T) -> (r: bool)
    ensures
        T::obeys_eq_spec() ==> (r <==> has_equal(container@, *item)),
{
    let mut j: usize = 0;
    while j < container.len()
        invariant
            j <= container@.len(),
            T::obeys_eq_spec() ==> forall|k: int|
                0 <= k < j ==> !(#[trigger] container@[k]).eq_spec(item),
        decreases container@.len() - j,
    {
        if container[j] == *item {
            return true;
        }
        j = j + 1;
    }
    false
}

/// Whether `container` holds every item of `contains`.
pub fn contains_all<T: PartialEq>(container: &[T], contains: &[T]) -> (r: bool)
    ensures
        T::obeys_eq_spec() ==> (r <==> forall|i: int|
            0 <= i < contains@.len() ==> has_equal(container@, #[trigger] contains@[i])),
{
    let mut i: usize = 0;
    while i < contains.len()
        invariant
            i <= contains@.len(),
            T::obeys_eq_spec() ==> forall|k: int|
                0 <= k < i ==> has_equal(container@, #[trigger] contains@[k]),
        decreases contains@.len() - i,
    {
        if !holds(container, &contains[i]) {
            return false;
        }
        i = i + 1;
    }
    true
}

/// Whether `container` holds none of the items of `contains`.
pub fn contains_none<T: PartialEq>(container: &[T], contains: &[T]) -> (r: bool)
    ensures
        T::obeys_eq_spec() ==> (r <==> forall|i: int|
            0 <= i < contains@.len() ==> !has_equal(container@, #[trigger] contains@[i])),
{
    let mut i: usize = 0;
    while i < contains.len()
        invariant
            i <= contains@.len(),
            T::obeys_eq_spec() ==> forall|k: int|
                0 <= k < i ==> !has_equal(container@, #[trigger] contains@[k]),
        decreases contains@.len() - i,
    {
        if holds(container, &contains[i]) {
            return false;
        }
        i = i + 1;
    }
    true
}

/// Whether two texts are equal.
fn same_text(a: &str, b: &str) -> (r: bool)
    ensures
        r == (a@ == b@),
{
    let x = chars_of(a);
    let y = chars_of(b);
    if x.len() != y.len() {
        return false;
    }
    let mut i: usize = 0;
    while i < x.len()
        invariant
            x@ == a@,
            y@ == b@,
            x.len() == y.len(),
            i <= x.len(),
            forall|k: int| 0 <= k < i ==> x@[k] == y@[k],
        decreases x.len() - i,
    {
        if x[i] != y[i] {
            return false;
        }
        i = i + 1;
    }
    assert(a@ =~= b@);
    true
}

/// Whether the text `name` is one of `names`.
pub open spec fn has_text_in(names: Seq<&str>, name: Seq<char>) -> bool {
    exists|j: int| 0 <= j < names.len() && (#[trigger] names[j])@ == name
}

/// Whether the text `name` is one of `names`.
fn has_text(names: &[&str], name: &str) -> (r: bool)
    ensures
        r <==> has_text_in(names@, name@),
{
    let mut j: usize = 0;
    while j < names.len()
        invariant
            j <= names@.len(),
            forall|k: int| 0 <= k < j ==> (#[trigger] names@[k])@ != name@,
        decreases names@.len() - j,
    {
        if same_text(names[j], name) {
            return true;
        }
        j = j + 1;
    }
    false
}

/// Whether every package of `packages` is among the `installed` ones.
pub fn check_installed(installed: &[&str], packages: &[&str]) -> (r: bool)
    ensures
        r <==> forall|i: int|
            0 <= i < packages@.len() ==> has_text_in(installed@, (#[trigger] packages@[i])@),
{
    let mut i: usize = 0;
    while i < packages.len()
        invariant
            i <= packages@.len(),
            forall|k: int|
                0 <= k < i ==> has_text_in(installed@, (#[trigger] packages@[k])@),
        decreases packages@.len() - i,
    {
        if !has_text(installed, packages[i]) {
            return false;
        }
        i = i + 1;
    }
    true
}

/// Whether no package of `packages` is among the `installed` ones.
pub fn check_not_installed(installed: &[&str], packages: &[&str]) -> (r: bool)
    ensures
        r <==> forall|i: int|
            0 <= i < packages@.len() ==> !has_text_in(installed@, (#[trigger] packages@[i])@),
{
    let mut i: usize = 0;
    while i < packages.len()
        invariant
            i <= packages@.len(),
            forall|k: int|
                0 <= k < i ==> !has_text_in(installed@, (#[trigger] packages@[k])@),
        decreases packages@.len() - i,
    {
        if has_text(installed, packages[i]) {
            return false;
        }
        i = i + 1;
    }
    true
}

/// A path that is to be removed once it is no longer needed.
pub struct PathRemover {
    path_to_remove: String,
}

impl PathRemover {
    pub fn new(path_to_remove: &str) -> (r: Self)
        ensures
            r.path()@ == path_to_remove@,
    {
        PathRemover { path_to_remove: String::from_str(path_to_remove) }
    }

    pub closed spec fn path(&self) -> String {
        self.path_to_remove
    }

    /// The path to remove.
    pub fn get_path(&self) -> (r: &String)
        ensures
            r@ == self.path()@,
    {
        &self.path_to_remove
    }
}

} // verus!
