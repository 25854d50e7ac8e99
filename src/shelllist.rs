use vstd::prelude::*;
use crate::errors::{agrees, agrees_at, value_of, ErrorKind, ShellItemError};
use crate::shellitem::{shell_item_result, ShellItem, ShellItemModel, SHELL_ITEM_HEADER_SIZE};

verus! {

/// The items from `pos` on, after those in `acc`, up to the size-zero
/// terminator (which is not kept), with the position after the terminator.
pub open spec fn shell_items_from(b: Seq<u8>, pos: int, acc: Seq<ShellItemModel>) -> Result<(Seq<ShellItemModel>, int), ErrorKind>
    decreases b.len() - pos,
{
    match shell_item_result(b, pos) {
        Err(k) => Err(k),
        Ok((item, e)) => if item.size == 0 {
            Ok((acc, e))
        } else {
            shell_items_from(b, e, acc.push(item))
        },
    }
}

/// The list that starts at `pos`.
pub open spec fn shell_list_result(b: Seq<u8>, pos: int) -> Result<(Seq<ShellItemModel>, int), ErrorKind> {
    shell_items_from(b, pos, Seq::empty())
}

/// The items of a shell item list, in stream order.
#[derive(Debug, Clone)]
pub struct ShellList(pub Vec<ShellItem>);

impl View for ShellList {
    type V = Seq<ShellItemModel>;

    open spec fn view(&self) -> Seq<ShellItemModel> {
        self.0@.map_values(|x: ShellItem| x@)
    }
}

impl ShellList {
    /// Decodes the list at the start of `data`.
    pub fn new(data: &[u8]) -> (r: Result<ShellList, ShellItemError>)
        ensures
            agrees(r, value_of(shell_list_result(data@, 0))),
    {
        match ShellList::parse(data, 0) {
            Ok((list, _)) => Ok(list),
            Err(e) => Err(e),
        }
    }

    /// Decodes the list at `pos`, with the position after its terminator.
    pub fn parse(data: &[u8], pos: usize) -> (r: Result<(ShellList, usize), ShellItemError>)
        requires
            pos <= data@.len(),
        ensures
            agrees_at(r, shell_list_result(data@, pos as int)),
    {
        let mut shell_items: Vec<ShellItem> = Vec::new();
        let mut p: usize = pos;
        assert(shell_items@.map_values(|x: ShellItem| x@) =~= Seq::<ShellItemModel>::empty());
        loop
            invariant
                pos <= p <= data@.len(),
                shell_items_from(data@, p as int, shell_items@.map_values(|x: ShellItem| x@))
                    == shell_list_result(data@, pos as int),
            decreases data@.len() - p,
        {
            let (item, e) = ShellItem::parse(data, p)?;
            if item.get_size() == 0 {
                proof {
                    assert(shell_items@.map_values(|x: ShellItem| x@) =~= ShellList(shell_items)@);
                }
                return Ok((ShellList(shell_items), e));
            }
            let ghost before = shell_items@;
            shell_items.push(item);
            proof {
                assert(shell_items@.map_values(|x: ShellItem| x@) =~= before.map_values(|x: ShellItem| x@).push(item@));
            }
            p = e;
        }
    }
}

/// The sum of the items' declared sizes.
pub open spec fn declared_total(items: Seq<ShellItemModel>) -> int
    decreases items.len(),
{
    if items.len() == 0 {
        0
    } else {
        declared_total(items.drop_last()) + items.last().size
    }
}

proof fn lemma_items_from_consumption(b: Seq<u8>, pos: int, acc: Seq<ShellItemModel>)
    requires
        0 <= pos <= b.len(),
    ensures
        shell_items_from(b, pos, acc) matches Ok((items, e)) ==> {
            &&& acc.len() <= items.len()
            &&& items.subrange(0, acc.len() as int) == acc
            &&& e - pos == declared_total(items) - declared_total(acc) + 2
            &&& forall|i: int| acc.len() <= i < items.len() ==> items[i].size >= SHELL_ITEM_HEADER_SIZE
        },
    decreases b.len() - pos,
{
    if let Ok((item, e)) = shell_item_result(b, pos) {
        if item.size != 0 {
            let acc2 = acc.push(item);
            lemma_items_from_consumption(b, e, acc2);
            assert(acc2.drop_last() =~= acc);
            if let Ok((items, e2)) = shell_items_from(b, e, acc2) {
                assert(items.subrange(0, acc.len() as int) =~= acc2.subrange(0, acc.len() as int));
                assert(acc2.subrange(0, acc.len() as int) =~= acc);
                assert(items[acc.len() as int] == acc2[acc.len() as int]);
            }
        }
    }
}

/// A decoded list consumed exactly the declared sizes of its items, and
/// two bytes more for the terminator; every item kept has a declared size
/// that holds at least its header.
pub proof fn lemma_list_consumes_declared_sizes(b: Seq<u8>, pos: int)
    requires
        0 <= pos <= b.len(),
    ensures
        shell_list_result(b, pos) matches Ok((items, e)) ==> {
            &&& e - pos == declared_total(items) + 2
            &&& forall|i: int| 0 <= i < items.len() ==> items[i].size >= SHELL_ITEM_HEADER_SIZE
        },
{
    lemma_items_from_consumption(b, pos, Seq::empty());
}

/// Decoding is a function of the bytes: two decodes of the same buffer
/// both succeed with equal trees, or both fail with the same kind.
pub proof fn lemma_decoding_is_deterministic(
    b: Seq<u8>,
    first: Result<ShellList, ShellItemError>,
    second: Result<ShellList, ShellItemError>,
)
    requires
        agrees(first, value_of(shell_list_result(b, 0))),
        agrees(second, value_of(shell_list_result(b, 0))),
    ensures
        first is Ok <==> second is Ok,
        first matches Ok(x) ==> second matches Ok(y) && x@ == y@,
        first matches Err(x) ==> second matches Err(y) && x.kind == y.kind,
{
}

/// A lone size-zero frame is an empty list, and decoding it reads its two
/// bytes.
pub proof fn lemma_lone_terminator_is_empty_list(b: Seq<u8>)
    requires
        b == seq![0u8, 0u8],
    ensures
        shell_list_result(b, 0) == Ok::<(Seq<ShellItemModel>, int), ErrorKind>((Seq::empty(), 2)),
{
    assert(crate::primitives::spec_u16(b, 0) == 0);
}

} // verus!
