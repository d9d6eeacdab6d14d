//! Mail between tasks: a bounded box of mails for each task.
use std::collections::VecDeque;
use vstd::prelude::*;

verus! {

/// The most mails a box holds.
pub const MAIL_NUMBER_LIMIT: usize = 16;

/// A mail: the two ends through which its content is read and written.
#[derive(Clone, Copy, Debug, PartialEq, Eq, Structural)]
pub struct Mail {
    pub read_end: usize,
    pub write_end: usize,
}

impl Mail {
    /// The mail with these two ends.
    pub fn new(read_end: usize, write_end: usize) -> (mail: Mail)
        ensures
            mail == (Mail { read_end, write_end }),
    {
        Mail { read_end, write_end }
    }
}

/// How full a box is, as far as the box has noticed.
#[derive(Clone, Copy, Debug, PartialEq, Eq, Structural)]
pub enum MailBoxStatus {
    FULL,
    EMPTY,
    NORMAL,
}

/// What a `MailBox` stands for: the mails in it, the oldest first, and
/// whether the box refuses more.
pub struct MailBoxView {
    pub mails: Seq<Mail>,
    pub full: bool,
}

/// A box of mails, which come out in the order in which they went in. The
/// box takes mails until it holds `MAIL_NUMBER_LIMIT` of them; from then on
/// it refuses mails until it has been emptied completely.
pub struct MailBox {
    mails: VecDeque<Mail>,
    limit: usize,
    status: MailBoxStatus,
}

impl View for MailBox {
    type V = MailBoxView;

    closed spec fn view(&self) -> MailBoxView {
        MailBoxView { mails: self.mails@, full: self.status == MailBoxStatus::FULL }
    }
}

impl MailBox {
    /// The box holds no more mails than its limit, and it refuses mails only
    /// while it holds some.
    pub closed spec fn wf(&self) -> bool {
        &&& self.limit == MAIL_NUMBER_LIMIT
        &&& self.mails@.len() <= self.limit
        &&& self.mails@.len() == self.limit ==> self.status == MailBoxStatus::FULL
        &&& self.status == MailBoxStatus::FULL ==> self.mails@.len() > 0
    }

    /// An empty box.
    pub fn new() -> (mailbox: MailBox)
        ensures
            mailbox.wf(),
            mailbox@.mails == Seq::<Mail>::empty(),
            !mailbox@.full,
    {
        MailBox { mails: VecDeque::new(), limit: MAIL_NUMBER_LIMIT, status: MailBoxStatus::EMPTY }
    }

    /// Puts `mail` into the box and returns the number of mails that the box
    /// then holds; with the mail that reaches the limit the box begins to
    /// refuse. A box that refuses stays as it is, and the result is 0.
    pub fn add_mail(&mut self, mail: Mail) -> (count: usize)
        requires
            old(self).wf(),
        ensures
            final(self).wf(),
            old(self)@.full ==> count == 0 && final(self)@ == old(self)@,
            !old(self)@.full ==> {
                &&& count == old(self)@.mails.len() + 1
                &&& final(self)@.mails == old(self)@.mails.push(mail)
                &&& final(self)@.full == (count == MAIL_NUMBER_LIMIT)
            },
    {
        if self.status == MailBoxStatus::FULL {
            return 0;
        }
        self.mails.push_back(mail);
        if self.mails.len() >= self.limit {
            self.status = MailBoxStatus::FULL;
        }
        self.mails.len()
    }

    /// Takes the oldest mail out of the box, or nothing where the box is
    /// empty. A box that refused mails takes them again once the last mail
    /// is out.
    pub fn get_mail(&mut self) -> (mail: Option<Mail>)
        requires
            old(self).wf(),
        ensures
            final(self).wf(),
            old(self)@.mails.len() == 0 ==> mail is None && final(self)@ == old(self)@,
            old(self)@.mails.len() > 0 ==> {
                &&& mail == Some(old(self)@.mails[0])
                &&& final(self)@.mails == old(self)@.mails.subrange(
                    1,
                    old(self)@.mails.len() as int,
                )
                &&& final(self)@.full == (old(self)@.full && old(self)@.mails.len() > 1)
            },
    {
        let m = self.mails.pop_front();
        if self.mails.len() == 0 {
            self.status = MailBoxStatus::EMPTY;
        }
        m
    }
}

} // verus!
