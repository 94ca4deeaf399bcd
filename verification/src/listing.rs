//! The order in which the numbered files of a directory are read.
//!
//! A file is numbered by the decimal digits its name starts with. Files
//! whose names start with no digit are left out, the others are taken in
//! ascending order of their numbers.

use crate::order::{in_order, lemma_order_unique, sort_by_index, stands_before};
use crate::text::{
    chars_of, decimal_number, decimal_value, digits, digits_end, lemma_run, parse_decimal, run_len,
};
use vstd::prelude::*;

verus! {

/// The longest run of ASCII digits that `name` starts with.
pub open spec fn leading_digits(name: Seq<char>) -> Seq<char> {
    name.take(run_len(name, digits()) as int)
}

/// The number of a file: the value of the digits its name starts with.
/// A name that starts with no digit has no number, nor has one whose digits
/// write a number too large for `usize`.
pub open spec fn file_index(name: Seq<char>) -> Option<usize> {
    match decimal_number(leading_digits(name), usize::MAX as u64) {
        Some(number) => Some(number as usize),
        None => None,
    }
}

/// A name has a number exactly when it starts with a digit and the digits
/// it starts with write a number that fits `usize`; the number is then the
/// value of those digits.
pub proof fn lemma_file_index(name: Seq<char>)
    ensures
        file_index(name) is Some <==> run_len(name, digits()) > 0 && decimal_value(
            leading_digits(name),
        ) <= usize::MAX,
        file_index(name) matches Some(index) ==> index == decimal_value(leading_digits(name)),
{
    lemma_run(name, digits());
}

/// Reads the number of a file off its name.
pub fn parse_index(name: &str) -> (index: Option<usize>)
    ensures
        index == file_index(name@),
{
    let chars: Vec<char> = chars_of(name);
    let end: usize = digits_end(&chars, 0);
    assert(chars@.skip(0) =~= chars@);
    match parse_decimal(&chars, 0, end, usize::MAX as u64) {
        Some(number) => Some(number as usize),
        None => None,
    }
}

/// The names of a list of file names as sequences of characters.
pub open spec fn name_views(names: Seq<String>) -> Seq<Seq<char>> {
    names.map_values(|name: String| name@)
}

/// The name at position `p` of the list has a number.
pub open spec fn numbered(names: Seq<Seq<char>>, p: int) -> bool {
    0 <= p < names.len() && file_index(names[p]) is Some
}

/// The number of the name at position `p`, together with `p`.
pub open spec fn entry_of(names: Seq<Seq<char>>, p: usize) -> (usize, usize) {
    (file_index(names[p as int])->0, p)
}

/// `order` lists the positions of exactly the numbered names of the list,
/// by ascending number, and names of equal number by ascending position.
pub open spec fn is_index_order(names: Seq<Seq<char>>, order: Seq<usize>) -> bool {
    &&& forall|k: int| 0 <= k < order.len() ==> numbered(names, #[trigger] order[k] as int)
    &&& forall|p: int| #[trigger] numbered(names, p) ==> order.contains(p as usize)
    &&& forall|i: int, j: int|
        0 <= i < j < order.len() ==> stands_before(
            #[trigger] entry_of(names, order[i]),
            #[trigger] entry_of(names, order[j]),
        )
}

/// A list of names has one order only: two lists of positions that both
/// are the order of the numbered names are equal.
pub proof fn lemma_index_order_unique(names: Seq<Seq<char>>, a: Seq<usize>, b: Seq<usize>)
    requires
        is_index_order(names, a),
        is_index_order(names, b),
    ensures
        a == b,
{
    let ea = a.map_values(|p: usize| entry_of(names, p));
    let eb = b.map_values(|p: usize| entry_of(names, p));
    assert(in_order(ea));
    assert(in_order(eb));
    assert forall|e: (usize, usize)| ea.contains(e) <==> eb.contains(e) by {
        if ea.contains(e) {
            let i = choose|i: int| 0 <= i < ea.len() && ea[i] == e;
            assert(b.contains(a[i]));
            let j = choose|j: int| 0 <= j < b.len() && b[j] == a[i];
            assert(eb[j] == e);
        }
        if eb.contains(e) {
            let i = choose|i: int| 0 <= i < eb.len() && eb[i] == e;
            assert(a.contains(b[i]));
            let j = choose|j: int| 0 <= j < a.len() && a[j] == b[i];
            assert(ea[j] == e);
        }
    }
    lemma_order_unique(ea, eb);
    assert forall|i: int| 0 <= i < a.len() implies a[i] == b[i] by {
        assert(ea[i].1 == a[i]);
        assert(eb[i].1 == b[i]);
    }
    assert(a =~= b);
}

/// The numbered names of the list, each with its number and position, in
/// the order of the list.
fn numbered_entries(names: &Vec<String>) -> (entries: Vec<(usize, usize)>)
    ensures
        forall|k: int|
            0 <= k < entries@.len() ==> {
                &&& numbered(name_views(names@), (#[trigger] entries@[k]).1 as int)
                &&& entries@[k] == entry_of(name_views(names@), entries@[k].1)
            },
        forall|i: int, j: int| 0 <= i < j < entries@.len() ==> entries@[i].1 < entries@[j].1,
        forall|p: int| #[trigger]
            numbered(name_views(names@), p) ==> entries@.contains(
                entry_of(name_views(names@), p as usize),
            ),
{
    let ghost views = name_views(names@);
    let mut entries: Vec<(usize, usize)> = Vec::new();
    let mut at: usize = 0;
    while at < names.len()
        invariant
            at <= names@.len(),
            views == name_views(names@),
            forall|k: int|
                0 <= k < entries@.len() ==> {
                    &&& numbered(views, (#[trigger] entries@[k]).1 as int)
                    &&& entries@[k] == entry_of(views, entries@[k].1)
                    &&& entries@[k].1 < at
                },
            forall|i: int, j: int| 0 <= i < j < entries@.len() ==> entries@[i].1 < entries@[j].1,
            forall|p: int| #[trigger]
                numbered(views, p) && p < at ==> entries@.contains(entry_of(views, p as usize)),
        decreases names@.len() - at,
    {
        let ghost before = entries@;
        match parse_index(names[at].as_str()) {
            Some(index) => {
                entries.push((index, at));
                assert(entries@[before.len() as int] == entry_of(views, at));
                assert forall|p: int| #[trigger] numbered(views, p) && p < at + 1 implies entries@
                    .contains(entry_of(views, p as usize)) by {
                    if p < at {
                        let k = choose|k: int|
                            0 <= k < before.len() && before[k] == entry_of(views, p as usize);
                        assert(entries@[k] == before[k]);
                    }
                }
            },
            None => {},
        }
        at += 1;
    }
    entries
}

/// Puts the numbered files of a directory in the order in which they are
/// read, given the names of its files.
///
/// The result lists positions in `names`: those of the names that start
/// with a number, by ascending number. Names of equal number keep the order
/// they have in `names`.
pub fn open_dir_sorted_paths(names: &Vec<String>) -> (order: Vec<usize>)
    ensures
        is_index_order(name_views(names@), order@),
{
    let ghost views = name_views(names@);
    let entries: Vec<(usize, usize)> = numbered_entries(names);
    let sorted: Vec<(usize, usize)> = sort_by_index(entries);
    let mut order: Vec<usize> = Vec::with_capacity(sorted.len());
    let mut k: usize = 0;
    while k < sorted.len()
        invariant
            k <= sorted@.len(),
            sorted@.to_multiset() == entries@.to_multiset(),
            order@.len() == k,
            forall|m: int| 0 <= m < k ==> order@[m] == sorted@[m].1,
        decreases sorted@.len() - k,
    {
        order.push(sorted[k].1);
        k += 1;
    }
    proof {
        entries@.to_multiset_ensures();
        sorted@.to_multiset_ensures();
        assert forall|e: (usize, usize)| entries@.contains(e) == sorted@.contains(e) by {
            assert(entries@.to_multiset().count(e) == sorted@.to_multiset().count(e));
        }
        assert forall|m: int| 0 <= m < order@.len() implies numbered(views, order@[m] as int)
            && #[trigger] sorted@[m] == entry_of(views, order@[m]) by {
            assert(entries@.contains(sorted@[m]));
        }
        assert forall|p: int| #[trigger] numbered(views, p) implies order@.contains(
            p as usize,
        ) by {
            let e = entry_of(views, p as usize);
            assert(sorted@.contains(e));
            let m = choose|m: int| 0 <= m < sorted@.len() && sorted@[m] == e;
            assert(order@[m] == p as usize);
        }
        assert forall|i: int, j: int| 0 <= i < j < order@.len() implies stands_before(
            #[trigger] entry_of(views, order@[i]),
            #[trigger] entry_of(views, order@[j]),
        ) by {
            assert(stands_before(sorted@[i], sorted@[j]));
        }
    }
    order
}

} // verus!
