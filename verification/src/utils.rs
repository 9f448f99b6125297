//! Small verified utilities: picking the largest element of a slice,
//! filtering a list by a key, locating characters in a string without regard
//! to ASCII case, and a compass-direction message.

use vstd::prelude::*;

use vstd::std_specs::cmp::PartialOrdSpec;
use vstd::string::StringSliceAdditionalSpecFns;

verus! {

use core::cmp::Ordering;

/// The largest `i32` of a non-empty slice: the result is an element of the
/// slice and no element exceeds it.
pub fn largest_i32(list: &[i32]) -> (r: &i32)
    requires
        list@.len() > 0,
    ensures
        list@.contains(*r),
        forall|i: int| 0 <= i < list@.len() ==> list@[i] <= *r,
{
    let mut largest: usize = 0;
    let mut idx: usize = 1;
    while idx < list.len()
        invariant
            0 < list@.len(),
            0 <= largest < list@.len(),
            idx <= list@.len(),
            forall|i: int| 0 <= i < idx ==> list@[i] <= list@[largest as int],
        decreases list@.len() - idx,
    {
        if list[idx] > list[largest] {
            largest = idx;
        }
        idx += 1;
    }
    &list[largest]
}

/// The largest `char` of a non-empty slice, by scalar value.
pub fn largest_char(list: &[char]) -> (r: &char)
    requires
        list@.len() > 0,
    ensures
        list@.contains(*r),
        forall|i: int| 0 <= i < list@.len() ==> list@[i] as u32 <= *r as u32,
{
    let mut largest: usize = 0;
    let mut idx: usize = 1;
    while idx < list.len()
        invariant
            0 < list@.len(),
            0 <= largest < list@.len(),
            idx <= list@.len(),
            forall|i: int| 0 <= i < idx ==> list@[i] as u32 <= list@[largest as int] as u32,
        decreases list@.len() - idx,
    {
        if list[idx] as u32 > list[largest] as u32 {
            largest = idx;
        }
        idx += 1;
    }
    &list[largest]
}

/// A comparison under which "greater" behaves as a strict order: nothing is
/// greater than itself, and greater-than carries across a middle element.
pub open spec fn strict_greater_ok<T: PartialOrd>() -> bool {
    &&& forall|a: T| #[trigger] a.partial_cmp_spec(&a) != Some(Ordering::Greater)
    &&& forall|a: T, b: T, c: T|
        #[trigger] a.partial_cmp_spec(&b) == Some(Ordering::Greater) && #[trigger] b.partial_cmp_spec(
            &c,
        ) == Some(Ordering::Greater) ==> a.partial_cmp_spec(&c) == Some(Ordering::Greater)
}

/// The largest element of a non-empty slice, under any ordering. For a type
/// whose comparison obeys its own specification and orders strictly, no
/// element compares greater than the result.
pub fn largest_val<T: PartialOrd>(list: &[T]) -> (r: &T)
    requires
        list@.len() > 0,
    ensures
        list@.contains(*r),
        <T as PartialOrdSpec>::obeys_partial_cmp_spec() && strict_greater_ok::<T>()
            ==> forall|i: int|
            0 <= i < list@.len() ==> (#[trigger] list@[i].partial_cmp_spec(r)) != Some(
                Ordering::Greater,
            ),
{
    let mut largest: usize = 0;
    let mut idx: usize = 1;
    while idx < list.len()
        invariant
            0 < list@.len(),
            0 <= largest < list@.len(),
            idx <= list@.len(),
            <T as PartialOrdSpec>::obeys_partial_cmp_spec() && strict_greater_ok::<T>()
                ==> forall|i: int|
                0 <= i < idx ==> (#[trigger] list@[i].partial_cmp_spec(
                    &list@[largest as int],
                )) != Some(Ordering::Greater),
        decreases list@.len() - idx,
    {
        if list[idx] > list[largest] {
            largest = idx;
        }
        idx += 1;
    }
    &list[largest]
}

/// The longer of two strings, measured in bytes; `y` when they tie.
pub fn largest_str<'a>(x: &'a str, y: &'a str) -> (r: &'a str)
    ensures
        x.spec_bytes().len() > y.spec_bytes().len() ==> r@ == x@,
        x.spec_bytes().len() <= y.spec_bytes().len() ==> r@ == y@,
{
    let xb = x.as_bytes();
    let yb = y.as_bytes();
    if xb.len() > yb.len() {
        x
    } else {
        y
    }
}

/// A shoe, sized and styled.
#[derive(Debug, PartialEq)]
pub struct Shoe {
    pub size: u32,
    pub style: String,
}

impl Clone for Shoe {
    fn clone(&self) -> (r: Self)
        ensures
            r == *self,
    {
        Shoe { size: self.size, style: self.style.clone() }
    }
}

/// The shoes of the given size, in their original order.
pub open spec fn shoes_of_size(s: Seq<Shoe>, size: u32) -> Seq<Shoe>
    decreases s.len(),
{
    if s.len() == 0 {
        Seq::empty()
    } else {
        shoes_of_size(s.drop_last(), size) + if s.last().size == size {
            seq![s.last()]
        } else {
            Seq::empty()
        }
    }
}

/// Keeps exactly the shoes of the given size, in order.
pub fn shoes_my_size(shoes: Vec<Shoe>, shoe_size: u32) -> (r: Vec<Shoe>)
    ensures
        r@ == shoes_of_size(shoes@, shoe_size),
{
    let ghost all = shoes@;
    let mut out: Vec<Shoe> = Vec::new();
    let mut i: usize = 0;
    proof {
        assert(all.take(0) =~= Seq::<Shoe>::empty());
        assert(out@ =~= shoes_of_size(all.take(0), shoe_size));
    }
    while i < shoes.len()
        invariant
            i <= all.len(),
            all == shoes@,
            out@ == shoes_of_size(all.take(i as int), shoe_size),
        decreases all.len() - i,
    {
        if shoes[i].size == shoe_size {
            out.push(shoes[i].clone());
        }
        proof {
            assert(all.take(i + 1).drop_last() =~= all.take(i as int));
            assert(all.take(i + 1).last() == all[i as int]);
            assert(out@ =~= shoes_of_size(all.take(i + 1), shoe_size));
        }
        i += 1;
    }
    proof {
        assert(all.take(all.len() as int) =~= all);
    }
    out
}

/// `c` with an ASCII capital letter lowered, any other character unchanged.
pub open spec fn ascii_lower(c: char) -> char {
    if c == 'A' { 'a' } else if c == 'B' { 'b' } else if c == 'C' { 'c' } else if c == 'D' { 'd' }
    else if c == 'E' { 'e' } else if c == 'F' { 'f' } else if c == 'G' { 'g' }
    else if c == 'H' { 'h' } else if c == 'I' { 'i' } else if c == 'J' { 'j' }
    else if c == 'K' { 'k' } else if c == 'L' { 'l' } else if c == 'M' { 'm' }
    else if c == 'N' { 'n' } else if c == 'O' { 'o' } else if c == 'P' { 'p' }
    else if c == 'Q' { 'q' } else if c == 'R' { 'r' } else if c == 'S' { 's' }
    else if c == 'T' { 't' } else if c == 'U' { 'u' } else if c == 'V' { 'v' }
    else if c == 'W' { 'w' } else if c == 'X' { 'x' } else if c == 'Y' { 'y' }
    else if c == 'Z' { 'z' } else { c }
}

/// Lowers an ASCII capital letter.
pub fn to_lower(c: char) -> (r: char)
    ensures
        r == ascii_lower(c),
{
    if c == 'A' { 'a' } else if c == 'B' { 'b' } else if c == 'C' { 'c' } else if c == 'D' { 'd' }
    else if c == 'E' { 'e' } else if c == 'F' { 'f' } else if c == 'G' { 'g' }
    else if c == 'H' { 'h' } else if c == 'I' { 'i' } else if c == 'J' { 'j' }
    else if c == 'K' { 'k' } else if c == 'L' { 'l' } else if c == 'M' { 'm' }
    else if c == 'N' { 'n' } else if c == 'O' { 'o' } else if c == 'P' { 'p' }
    else if c == 'Q' { 'q' } else if c == 'R' { 'r' } else if c == 'S' { 's' }
    else if c == 'T' { 't' } else if c == 'U' { 'u' } else if c == 'V' { 'v' }
    else if c == 'W' { 'w' } else if c == 'X' { 'x' } else if c == 'Y' { 'y' }
    else if c == 'Z' { 'z' } else { c }
}

/// Whether two characters agree once ASCII case is ignored.
pub open spec fn ci_eq(a: char, b: char) -> bool {
    ascii_lower(a) == ascii_lower(b)
}

/// A result that may hold a value, kept distinct from the standard one.
#[derive(Debug, PartialEq, Eq, Structural)]
pub enum Option1<T> {
    Found(T),
    Missing,
}

/// The positions in `s` whose character matches `t`, ASCII case ignored, in
/// increasing order.
pub open spec fn ci_positions(s: Seq<char>, t: char) -> Seq<int>
    decreases s.len(),
{
    if s.len() == 0 {
        Seq::empty()
    } else {
        ci_positions(s.drop_last(), t) + if ci_eq(s.last(), t) {
            seq![s.len() - 1]
        } else {
            Seq::empty()
        }
    }
}

/// Finds every position whose character matches `target`, ASCII case
/// ignored.
pub fn find_all_chars(s: &str, target: char) -> (r: Vec<usize>)
    ensures
        r@.map_values(|v: usize| v as int) == ci_positions(s@, target),
{
    let ghost sv = s@;
    let n = s.unicode_len();
    let mut out: Vec<usize> = Vec::new();
    let mut i: usize = 0;
    proof {
        assert(sv.take(0) =~= Seq::<char>::empty());
        assert(out@.map_values(|v: usize| v as int) =~= ci_positions(sv.take(0), target));
    }
    while i < n
        invariant
            i <= n,
            n == sv.len(),
            sv == s@,
            out@.map_values(|v: usize| v as int) == ci_positions(sv.take(i as int), target),
        decreases n - i,
    {
        if to_lower(s.get_char(i)) == to_lower(target) {
            out.push(i);
        }
        proof {
            assert(sv.take(i + 1).drop_last() =~= sv.take(i as int));
            assert(sv.take(i + 1).last() == sv[i as int]);
            assert(out@.map_values(|v: usize| v as int) =~= ci_positions(sv.take(i + 1), target));
        }
        i += 1;
    }
    proof {
        assert(sv.take(n as int) =~= sv);
    }
    out
}

/// The first position at or after `i` matching `t`, ASCII case ignored, or
/// the length.
pub open spec fn ci_index_from(s: Seq<char>, t: char, i: int) -> int
    decreases s.len() - i,
{
    if i < 0 || i >= s.len() {
        s.len() as int
    } else if ci_eq(s[i], t) {
        i
    } else {
        ci_index_from(s, t, i + 1)
    }
}

/// Finds the first position whose character matches `target`, ASCII case
/// ignored.
pub fn find_first_char(s: &str, target: char) -> (r: Option1<usize>)
    ensures
        ci_index_from(s@, target, 0) < s@.len() ==> r == Option1::Found(
            ci_index_from(s@, target, 0) as usize,
        ),
        ci_index_from(s@, target, 0) == s@.len() ==> r == Option1::<usize>::Missing,
{
    let n = s.unicode_len();
    let mut i: usize = 0;
    while i < n && to_lower(s.get_char(i)) != to_lower(target)
        invariant
            i <= n,
            n == s@.len(),
            ci_index_from(s@, target, 0) == ci_index_from(s@, target, i as int),
        decreases n - i,
    {
        i += 1;
    }
    proof {
        assert(ci_index_from(s@, target, i as int) == i);
    }
    if i < n {
        Option1::Found(i)
    } else {
        Option1::Missing
    }
}

/// The last matching position, ASCII case ignored, or `-1`.
pub open spec fn ci_last_index(s: Seq<char>, t: char) -> int
    decreases s.len(),
{
    if s.len() == 0 {
        -1
    } else if ci_eq(s.last(), t) {
        s.len() - 1
    } else {
        ci_last_index(s.drop_last(), t)
    }
}

/// Finds the last position whose character matches `target`, ASCII case
/// ignored.
pub fn find_last_char(s: &str, target: char) -> (r: Option1<usize>)
    ensures
        ci_last_index(s@, target) >= 0 ==> r == Option1::Found(ci_last_index(s@, target) as usize),
        ci_last_index(s@, target) < 0 ==> r == Option1::<usize>::Missing,
{
    let ghost sv = s@;
    let n = s.unicode_len();
    let mut last_index: Option1<usize> = Option1::Missing;
    let mut i: usize = 0;
    proof {
        assert(sv.take(0) =~= Seq::<char>::empty());
    }
    while i < n
        invariant
            i <= n,
            n == sv.len(),
            sv == s@,
            ci_last_index(sv.take(i as int), target) >= 0 ==> last_index == Option1::Found(
                ci_last_index(sv.take(i as int), target) as usize,
            ),
            ci_last_index(sv.take(i as int), target) < 0 ==> last_index
                == Option1::<usize>::Missing,
        decreases n - i,
    {
        if to_lower(s.get_char(i)) == to_lower(target) {
            last_index = Option1::Found(i);
        }
        proof {
            assert(sv.take(i + 1).drop_last() =~= sv.take(i as int));
            assert(sv.take(i + 1).last() == sv[i as int]);
        }
        i += 1;
    }
    proof {
        assert(sv.take(n as int) =~= sv);
    }
    last_index
}

/// How many characters of `s` match `t`, ASCII case ignored.
pub open spec fn ci_count(s: Seq<char>, t: char) -> int
    decreases s.len(),
{
    if s.len() == 0 {
        0
    } else {
        ci_count(s.drop_last(), t) + if ci_eq(s.last(), t) {
            1int
        } else {
            0int
        }
    }
}

/// Counts the characters matching `target`, ASCII case ignored.
pub fn count_char(s: &str, target: char) -> (r: usize)
    ensures
        r as int == ci_count(s@, target),
{
    let ghost sv = s@;
    let n = s.unicode_len();
    let mut count: usize = 0;
    let mut i: usize = 0;
    proof {
        assert(sv.take(0) =~= Seq::<char>::empty());
    }
    while i < n
        invariant
            i <= n,
            n == sv.len(),
            sv == s@,
            count <= i,
            count as int == ci_count(sv.take(i as int), target),
        decreases n - i,
    {
        if to_lower(s.get_char(i)) == to_lower(target) {
            count += 1;
        }
        proof {
            assert(sv.take(i + 1).drop_last() =~= sv.take(i as int));
            assert(sv.take(i + 1).last() == sv[i as int]);
        }
        i += 1;
    }
    proof {
        assert(sv.take(n as int) =~= sv);
    }
    count
}

/// A compass direction.
#[derive(Debug, PartialEq, Eq, Structural)]
pub enum Direction {
    North,
    South,
    East,
    West,
}

/// The message a steering decision prints: the two vertical directions get
/// their own words, anything else is horizontal.
pub fn steer(dir: Direction) -> (r: &'static str)
    ensures
        dir is North ==> r@ == "North Direction"@,
        dir is South ==> r@ == "South Direction"@,
        (dir is East || dir is West) ==> r@ == "Horizontal direction"@,
{
    match dir {
        Direction::North => "North Direction",
        Direction::South => "South Direction",
        _ => "Horizontal direction",
    }
}

} // verus!
