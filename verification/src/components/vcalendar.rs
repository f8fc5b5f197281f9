//! The components of a calendar: reading each block of a calendar as the
//! component that its tag names.
use vstd::prelude::*;
use crate::assembler::PropertyBag;
use crate::chars::{chars_of, is_literal};
use crate::components::vevent::{event_possible, VEvent};
use crate::components::vjournal::{journal_possible, VJournal};
use crate::components::vtimezone::{zone_possible, VTimezone};
use crate::components::{
    block_views,
    nested,
    parts_of,
    read_parts,
    split_nested,
    Block,
    BlockView,
};
use crate::error::{Error, ErrorView};

verus! {

/// A component of a calendar.
#[derive(Clone, Debug, PartialEq, Eq)]
pub enum Component {
    Event(VEvent),
    Journal(VJournal),
    Timezone(VTimezone),
}

/// The outcome of reading a block as an event.
pub open spec fn as_event(r: Result<Component, Error>) -> Option<Result<VEvent, Error>> {
    match r {
        Ok(Component::Event(ev)) => Some(Ok(ev)),
        Ok(_) => None,
        Err(e) => Some(Err(e)),
    }
}

/// The outcome of reading a block as a journal entry.
pub open spec fn as_journal(r: Result<Component, Error>) -> Option<Result<VJournal, Error>> {
    match r {
        Ok(Component::Journal(j)) => Some(Ok(j)),
        Ok(_) => None,
        Err(e) => Some(Err(e)),
    }
}

/// The outcome of reading a block as a time zone.
pub open spec fn as_zone(r: Result<Component, Error>) -> Option<Result<VTimezone, Error>> {
    match r {
        Ok(Component::Timezone(z)) => Some(Ok(z)),
        Ok(_) => None,
        Err(e) => Some(Err(e)),
    }
}

/// `r` is an outcome of reading a block as the component that its tag
/// names. A tag that names no component is rejected with the tag. The
/// lines of the block are parted first; an event and a journal entry are
/// made from the block's own lines, a time zone also from the blocks
/// nested in it.
pub open spec fn component_possible(block: BlockView, r: Result<Component, Error>) -> bool {
    if block.tag == "VEVENT"@ || block.tag == "VJOURNAL"@ || block.tag == "VTIMEZONE"@ {
        match nested(block.lines) {
            Err(e) => r matches Err(x) && x@ == e,
            Ok(parts) => if block.tag == "VEVENT"@ {
                as_event(r) matches Some(out) && event_possible(parts.own, out)
            } else if block.tag == "VJOURNAL"@ {
                as_journal(r) matches Some(out) && journal_possible(parts.own, out)
            } else {
                as_zone(r) matches Some(out) && zone_possible(parts.own, parts.blocks, out)
            },
        }
    } else {
        r matches Err(e) && e@ == ErrorView::UnsupportedComponentType(block.tag)
    }
}

/// Whether reading a block as a component can succeed.
pub open spec fn component_may_succeed(block: BlockView) -> bool {
    exists|c: Component| #[trigger] component_possible(block, Ok(c))
}

/// `r` is an outcome of reading every block as a component, in order. All
/// the components come out together; the first block that is rejected
/// decides the error.
pub open spec fn components_possible(blocks: Seq<BlockView>, r: Result<Seq<Component>, Error>) -> bool {
    match r {
        Ok(list) => {
            &&& list.len() == blocks.len()
            &&& forall|k: int|
                0 <= k < blocks.len() ==> #[trigger] component_possible(blocks[k], Ok(list[k]))
        },
        Err(e) => exists|k: int|
            {
                &&& 0 <= k < blocks.len()
                &&& #[trigger] component_possible(blocks[k], Err(e))
                &&& forall|j: int| 0 <= j < k ==> #[trigger] component_may_succeed(blocks[j])
            },
    }
}

/// The outcome of reading components, with the list as a sequence.
pub open spec fn components_outcome(r: Result<Vec<Component>, Error>) -> Result<
    Seq<Component>,
    Error,
> {
    match r {
        Ok(list) => Ok(list@),
        Err(e) => Err(e),
    }
}

/// `r` is an outcome of reading the raw text of a calendar.
pub open spec fn calendar_possible(raw: Seq<char>, r: Result<Vec<Component>, Error>) -> bool {
    match parts_of(raw, "VCALENDAR"@) {
        Err(e) => r matches Err(x) && x@ == e,
        Ok(parts) => components_possible(parts.blocks, components_outcome(r)),
    }
}

/// Reads a block as the component that its tag names.
pub fn component(block: &Block) -> (r: Result<Component, Error>)
    ensures
        component_possible(block@, r),
{
    let tag = chars_of(block.tag.as_str());
    let is_event = is_literal(tag.as_slice(), "VEVENT");
    let is_journal = is_literal(tag.as_slice(), "VJOURNAL");
    let is_zone = is_literal(tag.as_slice(), "VTIMEZONE");
    if !is_event && !is_journal && !is_zone {
        return Err(Error::UnsupportedComponentType(block.tag.clone()));
    }
    let (own, blocks) = match split_nested(&block.bag.lines) {
        Ok(parts) => parts,
        Err(e) => {
            return Err(e);
        },
    };
    let bag = PropertyBag::new(own);
    if is_event {
        match VEvent::from_bag(&bag) {
            Ok(ev) => Ok(Component::Event(ev)),
            Err(e) => Err(e),
        }
    } else if is_journal {
        match VJournal::from_bag(&bag) {
            Ok(j) => Ok(Component::Journal(j)),
            Err(e) => Err(e),
        }
    } else {
        match VTimezone::from_parts(&bag, &blocks) {
            Ok(z) => Ok(Component::Timezone(z)),
            Err(e) => Err(e),
        }
    }
}

/// Reads every block as a component, in order.
pub fn components(blocks: &Vec<Block>) -> (r: Result<Vec<Component>, Error>)
    ensures
        components_possible(block_views(blocks@), components_outcome(r)),
{
    let ghost views = block_views(blocks@);
    let mut list: Vec<Component> = Vec::new();
    let mut k: usize = 0;
    while k < blocks.len()
        invariant
            k <= blocks@.len(),
            views == block_views(blocks@),
            list@.len() == k,
            forall|j: int| 0 <= j < k ==> #[trigger] component_possible(views[j], Ok(list@[j])),
        decreases blocks@.len() - k,
    {
        match component(&blocks[k]) {
            Ok(c) => {
                list.push(c);
            },
            Err(e) => {
                proof {
                    assert(component_possible(views[k as int], Err(e)));
                    assert forall|j: int| 0 <= j < k implies #[trigger] component_may_succeed(
                        views[j],
                    ) by {
                        assert(component_possible(views[j], Ok(list@[j])));
                    }
                }
                return Err(e);
            },
        }
        k += 1;
    }
    Ok(list)
}

/// Reads the raw text of a calendar, `BEGIN:VCALENDAR` to
/// `END:VCALENDAR`: the components of its blocks, in order. The
/// calendar's own lines are passed over.
pub fn calendar(raw: &str) -> (r: Result<Vec<Component>, Error>)
    ensures
        calendar_possible(raw@, r),
{
    match read_parts(raw, "VCALENDAR") {
        Ok((_, blocks)) => components(&blocks),
        Err(e) => Err(e),
    }
}

} // verus!
