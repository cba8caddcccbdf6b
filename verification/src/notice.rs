//! Records that the state machines hand out for the log.

use vstd::prelude::*;

use crate::logger::Level;

verus! {

/// A record for the log.
pub struct Notice {
    pub level: Level,
    pub text: String,
}

/// What a [`Notice`] says.
pub struct Said {
    pub level: Level,
    pub text: Seq<char>,
}

impl View for Notice {
    type V = Said;

    open spec fn view(&self) -> Said {
        Said { level: self.level, text: self.text@ }
    }
}

/// What a list of records says.
pub open spec fn said(notices: Seq<Notice>) -> Seq<Said> {
    notices.map_values(|n: Notice| n@)
}

/// A problem.
pub open spec fn error(text: Seq<char>) -> Said {
    Said { level: Level::Error, text }
}

/// Something unusual.
pub open spec fn warn(text: Seq<char>) -> Said {
    Said { level: Level::Warn, text }
}

/// An event of interest.
pub open spec fn info(text: Seq<char>) -> Said {
    Said { level: Level::Info, text }
}

/// A detail for troubleshooting.
pub open spec fn debug(text: Seq<char>) -> Said {
    Said { level: Level::Debug, text }
}

/// A list that may hold one record.
pub open spec fn only_if(condition: bool, record: Said) -> Seq<Said> {
    if condition {
        seq![record]
    } else {
        Seq::empty()
    }
}

/// Adds a record to a list.
pub fn add_to(notices: &mut Vec<Notice>, level: Level, text: String)
    ensures
        said(final(notices)@) == said(old(notices)@).push((Said { level, text: text@ })),
{
    notices.push(Notice { level, text });
    assert(said(notices@) == said(old(notices)@).push((Said { level, text: text@ })));
}

/// Adding a record puts it behind the others, which stay as they are.
pub proof fn a_record_is_added_at_the_end(
    notices: &mut Vec<Notice>,
    level: Level,
    text: String,
    done: (),
)
    requires
        call_ensures(add_to, (notices, level, text), done),
    ensures
        final(notices)@.len() == old(notices)@.len() + 1,
        final(notices)@.last().level == level,
        final(notices)@.last().text@ == text@,
        forall|i: int|
            0 <= i < old(notices)@.len() ==> (#[trigger] final(notices)@[i])@ == old(notices)@[i]@,
{
    let before = said(old(notices)@);
    let after = said(final(notices)@);
    assert(after.len() == final(notices)@.len());
    assert(after.last() == final(notices)@.last()@);
    assert forall|i: int| 0 <= i < old(notices)@.len() implies (#[trigger] final(notices)@[i])@
        == old(notices)@[i]@ by {
        assert(after[i] == before[i]);
    }
}

} // verus!
