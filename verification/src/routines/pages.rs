//! Pages of occurrences: where one begins, what it takes, and where the next goes on.
use vstd::prelude::*;

use crate::routines::cursors::{decode_cursor, encode_cursor, Cursor};
use crate::routines::model::{unsigned, RoutineOccurrenceError, RoutineOccurrenceSnapshot};
use crate::time::DatabaseScope;

verus! {

/// How many bytes a page may have.
pub const PAGE_BYTES: usize = 8 * 1024 * 1024;

/// How many of them are kept for what stands around the changes.
pub const PAGE_OVERHEAD: usize = 1024;

/// A change of an occurrence, with its place in the order of changes.
#[derive(Debug)]
pub struct RoutineOccurrenceChange {
    pub sequence: u64,
    pub occurrence: RoutineOccurrenceSnapshot,
}

/// A page of changes.
#[derive(Debug)]
pub struct RoutineOccurrencePage {
    pub schema_version: u16,
    pub changes: Vec<RoutineOccurrenceChange>,
    /// Where the next page begins.
    pub cursor: String,
    pub has_more: bool,
}

/// Whether so many changes may be asked for at once.
pub fn check_page_limit(limit: u16) -> (result: Result<(), RoutineOccurrenceError>)
    ensures
        result == (if 1 <= limit <= 100 {
            Ok::<(), RoutineOccurrenceError>(())
        } else {
            Err(RoutineOccurrenceError::Invalid)
        }),
{
    if limit < 1 || limit > 100 {
        Err(RoutineOccurrenceError::Invalid)
    } else {
        Ok(())
    }
}

/// Where the first page begins: a list captures the head.
pub open spec fn first_place(scope: DatabaseScope, head: u64, list: bool) -> Cursor {
    Cursor {
        workspace: scope.workspace_id,
        list_head: if list {
            Some(head)
        } else {
            None
        },
        after: 0,
    }
}

/// Whether a page can begin at a place: the place is not ahead of what it is in, and it
/// is of the sort that is asked for.
pub open spec fn can_begin(place: Cursor, head: u64, list: bool) -> bool {
    &&& place.after <= head
    &&& place.list_head matches Some(captured) ==> captured <= head && place.after <= captured
    &&& list == (place.list_head is Some)
}

/// The last change that a page beginning at a place can take.
pub open spec fn page_head(place: Cursor, head: u64) -> u64 {
    match place.list_head {
        Some(captured) => captured,
        None => head,
    }
}

/// A page that was asked for.
#[derive(Clone, Copy, Debug, PartialEq, Eq, Structural)]
pub struct PageRequest {
    pub place: Cursor,
    /// The last change that the page can take.
    pub head: u64,
}

/// Opens the page that a cursor stands for, or the first page. `head` is the last change
/// of the workspace.
pub fn open_page(cursor: Option<&str>, scope: DatabaseScope, head: i64, list: bool) -> (result:
    Result<PageRequest, RoutineOccurrenceError>)
    ensures
        head < 0 ==> result == Err::<PageRequest, RoutineOccurrenceError>(
            RoutineOccurrenceError::Unavailable,
        ),
        head >= 0 && cursor is None ==> result == Ok::<PageRequest, RoutineOccurrenceError>(
            PageRequest { place: first_place(scope, head as u64, list), head: head as u64 },
        ),
        head >= 0 ==> (cursor matches Some(text) ==> {
            &&& match result {
                Ok(request) => {
                    &&& crate::routines::cursors::reads_as(
                        text@,
                        scope.workspace_id,
                        request.place,
                    )
                    &&& can_begin(request.place, head as u64, list)
                    &&& request.head == page_head(request.place, head as u64)
                },
                Err(error) => error == RoutineOccurrenceError::InvalidCursor,
            }
            &&& forall|place: Cursor| #[trigger]
                crate::routines::cursors::reads_as(text@, scope.workspace_id, place) && can_begin(
                    place,
                    head as u64,
                    list,
                ) ==> result is Ok && result->Ok_0.place == place
        }),
{
    let head: u64 = unsigned(head)?;
    let place: Cursor = match cursor {
        Some(text) => decode_cursor(text, scope)?,
        None => Cursor {
            workspace: scope.workspace_id,
            list_head: if list {
                Some(head)
            } else {
                None
            },
            after: 0,
        },
    };
    if place.after > head {
        return Err(RoutineOccurrenceError::InvalidCursor);
    }
    let captured: u64 = match place.list_head {
        Some(captured) => {
            if captured > head || place.after > captured || !list {
                return Err(RoutineOccurrenceError::InvalidCursor);
            }
            captured
        },
        None => {
            if list {
                return Err(RoutineOccurrenceError::InvalidCursor);
            }
            head
        },
    };
    Ok(PageRequest { place, head: captured })
}

/// Whether a stored change can be on a page at all. `stored_bytes` is how many bytes are
/// stored for it.
pub fn check_pointer(sequence: i64, stored_bytes: i64) -> (result: Result<
    u64,
    RoutineOccurrenceError,
>)
    ensures
        match result {
            Ok(number) => number == sequence && 0 <= stored_bytes <= PAGE_BYTES,
            Err(error) => if sequence < 0 || stored_bytes < 0 {
                error == RoutineOccurrenceError::Unavailable
            } else {
                stored_bytes > PAGE_BYTES && error == RoutineOccurrenceError::TooLarge
            },
        },
{
    let number: u64 = unsigned(sequence)?;
    let bytes: u64 = unsigned(stored_bytes)?;
    if bytes > PAGE_BYTES as u64 {
        return Err(RoutineOccurrenceError::TooLarge);
    }
    Ok(number)
}

/// A change as it is listed: an occurrence that has moved on since cannot be changed as
/// it is shown. `latest` is the revision that the occurrence has now.
pub fn listed_change(
    sequence: u64,
    occurrence: RoutineOccurrenceSnapshot,
    latest: i64,
) -> (result: Result<RoutineOccurrenceChange, RoutineOccurrenceError>)
    ensures
        match result {
            Ok(change) => latest >= 0 && change == (RoutineOccurrenceChange {
                sequence,
                occurrence: RoutineOccurrenceSnapshot {
                    fresh_edit_eligible: occurrence.fresh_edit_eligible && latest
                        == occurrence.aggregate.revision,
                    ..occurrence
                },
            }),
            Err(error) => latest < 0 && error == RoutineOccurrenceError::Unavailable,
        },
{
    let latest: u64 = unsigned(latest)?;
    let mut occurrence: RoutineOccurrenceSnapshot = occurrence;
    if latest != occurrence.aggregate.revision {
        occurrence.fresh_edit_eligible = false;
    }
    Ok(RoutineOccurrenceChange { sequence, occurrence })
}

/// A page that is being filled.
#[derive(Debug)]
pub struct PageDraft {
    pub changes: Vec<RoutineOccurrenceChange>,
    /// The bytes of the changes, and those kept for what stands around them.
    pub bytes: usize,
    pub has_more: bool,
}

impl PageDraft {
    /// Whether the page keeps within its bytes.
    pub open spec fn fits(self) -> bool {
        &&& PAGE_OVERHEAD <= self.bytes <= PAGE_BYTES
        &&& self.changes@.len() == 0 ==> self.bytes == PAGE_OVERHEAD
    }

    /// An empty page. There is more than one page can take if there are more rows than
    /// were asked for.
    pub fn new(row_count: usize, limit: u16) -> (result: PageDraft)
        ensures
            result.fits(),
            result.changes@ == Seq::<RoutineOccurrenceChange>::empty(),
            result.bytes == PAGE_OVERHEAD,
            result.has_more == (row_count > limit),
    {
        PageDraft {
            changes: Vec::new(),
            bytes: PAGE_OVERHEAD,
            has_more: row_count > limit as usize,
        }
    }

    /// Puts a change of so many bytes on the page, if there is room; a page that is not
    /// empty may be without. It is an error if the change would fill a page alone.
    pub fn offer(&mut self, change: RoutineOccurrenceChange, size: usize) -> (result: Result<
        bool,
        RoutineOccurrenceError,
    >)
        requires
            old(self).fits(),
        ensures
            final(self).fits(),
            match result {
                Ok(true) => {
                    &&& size + PAGE_OVERHEAD <= PAGE_BYTES
                    &&& final(self).changes@ == old(self).changes@.push(change)
                    &&& final(self).bytes == old(self).bytes + size
                    &&& final(self).has_more == old(self).has_more
                },
                Ok(false) => {
                    &&& size + PAGE_OVERHEAD <= PAGE_BYTES
                    &&& old(self).bytes + size > PAGE_BYTES
                    &&& old(self).changes@.len() > 0
                    &&& final(self).changes@ == old(self).changes@
                    &&& final(self).bytes == old(self).bytes
                    &&& final(self).has_more
                },
                Err(error) => {
                    &&& size + PAGE_OVERHEAD > PAGE_BYTES
                    &&& error == RoutineOccurrenceError::TooLarge
                    &&& *final(self) == *old(self)
                },
            },
    {
        if size > PAGE_BYTES - PAGE_OVERHEAD {
            return Err(RoutineOccurrenceError::TooLarge);
        }
        if self.bytes + size > PAGE_BYTES {
            self.has_more = true;
            return Ok(false);
        }
        self.bytes = self.bytes + size;
        self.changes.push(change);
        Ok(true)
    }
}

/// The place after changes.
pub open spec fn place_after(place: Cursor, changes: Seq<RoutineOccurrenceChange>) -> u64 {
    if changes.len() == 0 {
        place.after
    } else {
        changes.last().sequence
    }
}

/// Where the next page begins: after the last change of this one, or, if this one is the
/// last, after everything, and with changes rather than a list.
pub open spec fn next_place(
    request: PageRequest,
    changes: Seq<RoutineOccurrenceChange>,
    has_more: bool,
) -> Cursor {
    if has_more {
        Cursor { after: place_after(request.place, changes), ..request.place }
    } else {
        Cursor { workspace: request.place.workspace, list_head: None, after: request.head }
    }
}

/// Closes a page.
pub fn close_page(draft: PageDraft, request: PageRequest) -> (result: RoutineOccurrencePage)
    ensures
        result.schema_version == 1,
        result.changes == draft.changes,
        result.has_more == draft.has_more,
        result.cursor@ == crate::routines::cursors::cursor_text(
            next_place(request, draft.changes@, draft.has_more),
        ),
        vstd::utf8::encode_utf8(result.cursor@).len() <= 512,
{
    let next: Cursor = if draft.has_more {
        let after: u64 = if draft.changes.len() == 0 {
            request.place.after
        } else {
            draft.changes[draft.changes.len() - 1].sequence
        };
        Cursor { workspace: request.place.workspace, list_head: request.place.list_head, after }
    } else {
        Cursor { workspace: request.place.workspace, list_head: None, after: request.head }
    };
    RoutineOccurrencePage {
        schema_version: 1,
        cursor: encode_cursor(&next),
        has_more: draft.has_more,
        changes: draft.changes,
    }
}

/// Whether a page as a whole keeps within its bytes.
pub fn check_page_size(bytes: usize) -> (result: Result<(), RoutineOccurrenceError>)
    ensures
        result == (if bytes > PAGE_BYTES {
            Err::<(), RoutineOccurrenceError>(RoutineOccurrenceError::TooLarge)
        } else {
            Ok(())
        }),
{
    if bytes > PAGE_BYTES {
        Err(RoutineOccurrenceError::TooLarge)
    } else {
        Ok(())
    }
}

/// Whether changes are in order, after a place and up to the head of its page.
pub open spec fn changes_of_page(
    request: PageRequest,
    changes: Seq<RoutineOccurrenceChange>,
) -> bool {
    &&& forall|i: int|
        0 <= i < changes.len() ==> request.place.after < (#[trigger] changes[i]).sequence
            <= request.head
    &&& forall|i: int, j: int|
        0 <= i < j < changes.len() ==> (#[trigger] changes[i]).sequence < (
        #[trigger] changes[j]).sequence
}

/// The cursor of a page opens the next one, whatever was changed in the meantime: a list
/// goes on within the head that it captured, and the cursor of its last page goes on with
/// the changes after that head.
pub proof fn cursor_opens_the_next_page(
    request: PageRequest,
    head: u64,
    later_head: u64,
    list: bool,
    changes: Seq<RoutineOccurrenceChange>,
    has_more: bool,
)
    requires
        can_begin(request.place, head, list),
        request.head == page_head(request.place, head),
        changes_of_page(request, changes),
        head <= later_head,
    ensures
        can_begin(
            next_place(request, changes, has_more),
            later_head,
            has_more && list,
        ),
        has_more && list ==> page_head(next_place(request, changes, has_more), later_head)
            == request.head,
{
}

/// Of all changes in order, a page takes the first, and the next page begins exactly
/// before the others: none is left out, and none comes twice.
pub proof fn pages_leave_nothing_out(
    request: PageRequest,
    all: Seq<RoutineOccurrenceChange>,
    count: int,
    i: int,
)
    requires
        changes_of_page(request, all),
        0 < count <= all.len(),
        0 <= i < all.len(),
    ensures
        all[i].sequence > next_place(request, all.take(count), true).after <==> i >= count,
{
    assert(all.take(count).last() == all[count - 1]);
}

} // verus!
