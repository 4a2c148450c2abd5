//! The order and the widths of the rail's modules.
use crate::text::{characters, find, parts, read_unsigned, unsigned_value};
use vstd::prelude::*;

verus! {

/// The narrowest module.
pub const MIN_WIDTH: u32 = 52;

/// The widest module.
pub const MAX_WIDTH: u32 = 2_000;

/// Whether the text names every module once, by its digit.
pub open spec fn is_order(text: Seq<char>) -> bool {
    &&& text.len() == 9
    &&& forall|i: int| 0 <= i < 9 ==> '0' <= #[trigger] text[i] <= '8'
    &&& forall|i: int, j: int| 0 <= i < j < 9 ==> text[i] != text[j]
}

/// The modules that the digits name, in their order.
pub open spec fn order_of(text: Seq<char>) -> Seq<usize> {
    Seq::new(text.len(), |i: int| (text[i] as u32 - '0' as u32) as usize)
}

/// The order that the text writes, where it names every module once.
pub open spec fn order_value(text: Seq<char>) -> Option<Seq<usize>> {
    if is_order(text) {
        Some(order_of(text))
    } else {
        None
    }
}

/// Reads the order of the modules: nine digits, each module once.
pub fn parse_order(value: &str) -> (order: Option<[usize; 9]>)
    ensures
        match order {
            Some(order) => order_value(value@) == Some(order@),
            None => order_value(value@) is None,
        },
{
    let text = characters(value);
    if text.len() != 9 {
        return None;
    }
    let mut order: [usize; 9] = [0, 0, 0, 0, 0, 0, 0, 0, 0];
    let mut seen: [bool; 9] = [false, false, false, false, false, false, false, false, false];
    let mut count: usize = 0;
    while count < 9
        invariant
            text@ == value@,
            text@.len() == 9,
            count <= 9,
            order@.len() == 9,
            seen@.len() == 9,
            forall|i: int| 0 <= i < count ==> '0' <= #[trigger] value@[i] <= '8',
            forall|i: int|
                0 <= i < count ==> #[trigger] order@[i] == (value@[i] as u32 - '0' as u32) as usize,
            forall|i: int, j: int| 0 <= i < j < count ==> value@[i] != value@[j],
            forall|module: int|
                #![trigger seen@[module]]
                0 <= module < 9 ==> (seen@[module] <==> exists|i: int|
                    0 <= i < count && #[trigger] order@[i] == module),
        decreases 9 - count,
    {
        let character = text[count];
        if character < '0' || character > '8' {
            assert(!('0' <= value@[count as int] <= '8'));
            return None;
        }
        let index: usize = (character as u32 - '0' as u32) as usize;
        if seen[index] {
            proof {
                let i = choose|i: int| 0 <= i < count && #[trigger] order@[i] == index;
                assert(value@[i] == value@[count as int]);
            }
            return None;
        }
        let ghost before = order@;
        let ghost seen_before = seen@;
        order[count] = index;
        seen[index] = true;
        proof {
            assert forall|module: int| 0 <= module < 9 implies (#[trigger] seen@[module] <==> exists|
                i: int,
            |
                0 <= i < count + 1 && #[trigger] order@[i] == module) by {
                if module == index {
                    assert(order@[count as int] == module);
                } else {
                    assert(seen@[module] == seen_before[module]);
                    if seen_before[module] {
                        let i = choose|i: int| 0 <= i < count && #[trigger] before[i] == module;
                        assert(order@[i] == module);
                    }
                    if exists|i: int| 0 <= i < count + 1 && #[trigger] order@[i] == module {
                        let i = choose|i: int|
                            0 <= i < count + 1 && #[trigger] order@[i] == module;
                        assert(before[i] == module);
                    }
                }
            }
            assert forall|i: int, j: int| 0 <= i < j < count + 1 implies value@[i] != value@[j] by {
                if j == count && value@[i] == value@[j] {
                    assert(before[i] == index);
                }
            }
        }
        count = count + 1;
    }
    assert(order@ =~= order_of(value@));
    Some(order)
}

/// An order that was read names every module exactly once: it is a permutation
/// of the modules.
pub proof fn orders_are_permutations(text: Seq<char>, module: usize)
    requires
        is_order(text),
        module < 9,
    ensures
        order_of(text).len() == 9,
        forall|i: int| 0 <= i < 9 ==> #[trigger] order_of(text)[i] < 9,
        forall|i: int, j: int|
            0 <= i < j < 9 ==> order_of(text)[i] != order_of(text)[j],
        exists|i: int| 0 <= i < 9 && #[trigger] order_of(text)[i] == module,
{
    let order = order_of(text);
    if forall|i: int| 0 <= i < 9 ==> order[i] != module {
        let all = Set::new(|m: usize| m < 9);
        let left = all.remove(module);
        assert(order.to_set().subset_of(left)) by {
            assert forall|m: usize| order.to_set().contains(m) implies left.contains(m) by {
                let i = choose|i: int| 0 <= i < 9 && order[i] == m;
                assert(order[i] < 9);
            }
        }
        assert(order.no_duplicates());
        order.unique_seq_to_set();
        nine_modules();
        vstd::set_lib::lemma_len_subset(order.to_set(), left);
        assert(false);
    }
}

proof fn nine_modules()
    ensures
        Set::new(|m: usize| m < 9).finite(),
        Set::new(|m: usize| m < 9).len() == 9,
{
    let listed = seq![0usize, 1, 2, 3, 4, 5, 6, 7, 8];
    assert(listed.no_duplicates());
    listed.unique_seq_to_set();
    assert(listed.to_set() =~= Set::new(|m: usize| m < 9)) by {
        assert forall|m: usize| m < 9 implies listed.to_set().contains(m) by {
            assert(listed[m as int] == m);
        }
    }
}

/// Whether the text writes a width between the narrowest and the widest.
pub open spec fn is_width(text: Seq<char>) -> bool {
    match unsigned_value(text, MAX_WIDTH as nat) {
        Some(width) => width >= MIN_WIDTH,
        None => false,
    }
}

/// The widths that the text writes: nine of them, with commas between them.
pub open spec fn widths_value(text: Seq<char>) -> Option<Seq<u32>> {
    let listed = parts(text, ',', 0);
    if listed.len() == 9 && forall|i: int| 0 <= i < 9 ==> is_width(#[trigger] listed[i]) {
        Some(Seq::new(9, |i: int| unsigned_value(listed[i], MAX_WIDTH as nat)->0 as u32))
    } else {
        None
    }
}

/// Reads the widths of the modules.
pub fn parse_widths(value: &str) -> (widths: Option<[u32; 9]>)
    ensures
        match widths {
            Some(widths) => widths_value(value@) == Some(widths@),
            None => widths_value(value@) is None,
        },
{
    let text = characters(value);
    let ghost listed = parts(value@, ',', 0);
    let mut widths: [u32; 9] = [0, 0, 0, 0, 0, 0, 0, 0, 0];
    let mut count: usize = 0;
    let mut from: usize = 0;
    let mut more = true;
    assert(listed.skip(0) =~= listed);
    while more
        invariant
            text@ == value@,
            listed == parts(value@, ',', 0),
            from <= text@.len(),
            widths@.len() == 9,
            count <= 9,
            count <= listed.len(),
            more ==> listed.skip(count as int) == parts(value@, ',', from as int),
            !more ==> count == listed.len(),
            forall|i: int| 0 <= i < count ==> is_width(#[trigger] listed[i]),
            forall|i: int|
                0 <= i < count ==> #[trigger] widths@[i] == unsigned_value(
                    listed[i],
                    MAX_WIDTH as nat,
                )->0,
        decreases text@.len() - from + (if more { 1int } else { 0int }),
    {
        let end: usize = find(text.as_slice(), ',', from);
        let ghost rest = parts(value@, ',', from as int);
        assert(rest.len() > 0);
        assert(rest[0] == value@.subrange(from as int, end as int));
        assert(listed[count as int] == rest[0]);
        if count == 9 {
            return None;
        }
        let part = vstd::slice::slice_subrange(text.as_slice(), from, end);
        match read_unsigned(part, MAX_WIDTH as u64) {
            Some(width) => {
                if width < MIN_WIDTH as u64 {
                    assert(!is_width(listed[count as int]));
                    return None;
                }
                widths[count] = width as u32;
            },
            None => {
                assert(!is_width(listed[count as int]));
                return None;
            },
        }
        assert(listed.skip(count + 1) =~= rest.skip(1));
        count = count + 1;
        if end < text.len() {
            from = end + 1;
            assert(rest.skip(1) =~= parts(value@, ',', from as int));
        } else {
            assert(rest.len() == 1);
            more = false;
        }
    }
    if count == 9 {
        assert(widths@ =~= widths_value(value@)->0);
        Some(widths)
    } else {
        None
    }
}

/// An order names its modules by their digits, in their places.
pub proof fn orders_are_written_in_digits(text: Seq<char>, order: Seq<usize>)
    requires
        order.len() == 9,
        text.len() == 9,
        forall|i: int| 0 <= i < 9 ==> #[trigger] order[i] < 9,
        forall|i: int, j: int| 0 <= i < j < 9 ==> order[i] != order[j],
        forall|i: int|
            0 <= i < 9 ==> #[trigger] text[i] == crate::text::digit_character(order[i] as nat),
    ensures
        order_value(text) == Some(order),
{
    assert forall|i: int| 0 <= i < 9 implies '0' <= #[trigger] text[i] <= '8' by {
        assert(order[i] < 9);
    }
    assert forall|i: int, j: int| 0 <= i < j < 9 implies text[i] != text[j] by {
        assert(order[i] != order[j]);
        assert(order[i] < 9 && order[j] < 9);
    }
    assert forall|i: int| 0 <= i < 9 implies #[trigger] order_of(text)[i] == order[i] by {
        assert(order[i] < 9);
        assert(text[i] == crate::text::digit_character(order[i] as nat));
    }
    assert(order_of(text) =~= order);
}

/// Widths that were written with commas between them are read back where each is in
/// bounds, and otherwise none is.
pub proof fn written_widths_are_read_back(widths: Seq<u32>, text: Seq<char>)
    requires
        widths.len() == 9,
        text == crate::model::joined(
            Seq::new(9, |i: int| crate::text::decimal_text(widths[i] as nat)),
        ),
    ensures
        (forall|i: int| 0 <= i < 9 ==> MIN_WIDTH <= #[trigger] widths[i] <= MAX_WIDTH)
            ==> widths_value(text) == Some(widths),
        (exists|i: int| 0 <= i < 9 && !(MIN_WIDTH <= #[trigger] widths[i] <= MAX_WIDTH))
            ==> widths_value(text) is None,
{
    let texts = Seq::new(9, |i: int| crate::text::decimal_text(widths[i] as nat));
    assert forall|i: int| 0 <= i < texts.len() implies !(#[trigger] texts[i]).contains(',') by {
        crate::text::decimal_round_trip(widths[i] as nat);
        if texts[i].contains(',') {
            let place = texts[i].index_of(',');
            assert(crate::text::is_digit(texts[i][place]));
        }
    }
    crate::model::joined_texts_part_again(texts);
    let listed = parts(text, ',', 0);
    assert(listed == texts);
    assert forall|i: int| 0 <= i < 9 implies is_width(#[trigger] listed[i]) == (MIN_WIDTH
        <= widths[i] <= MAX_WIDTH) by {
        crate::text::written_numbers_are_read_back(widths[i] as nat, MAX_WIDTH as nat);
    }
    if forall|i: int| 0 <= i < 9 ==> MIN_WIDTH <= #[trigger] widths[i] <= MAX_WIDTH {
        assert forall|i: int| 0 <= i < 9 implies is_width(#[trigger] listed[i]) by {
            assert(widths[i] == widths[i]);
        }
        assert forall|i: int| 0 <= i < 9 implies #[trigger] widths_value(text)->0[i]
            == widths[i] by {
            crate::text::written_numbers_are_read_back(widths[i] as nat, MAX_WIDTH as nat);
        }
        assert(widths_value(text)->0 =~= widths);
    } else {
        let i = choose|i: int| 0 <= i < 9 && !(MIN_WIDTH <= #[trigger] widths[i] <= MAX_WIDTH);
        assert(!is_width(listed[i]));
    }
}

} // verus!
