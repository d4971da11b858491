use vstd::prelude::*;
use vstd::string::StringExecFns;

verus! {

/// One stored record of the message log, as the store hands it back:
/// an identifier that grows with every append, the text (which a record may
/// lack), and an optional sequence marker.
pub struct Message {
    pub id: i32,
    pub message: Option<String>,
    pub updated: Option<i32>,
}

/// What the history listing shows for one stored record: its text, or the
/// empty text for a record that lacks one.
pub open spec fn text_of(m: Message) -> Seq<char> {
    match m.message {
        Some(text) => text@,
        None => Seq::empty(),
    }
}

/// The ways the persistence engine can fail: resolving its configuration,
/// obtaining a connection, or running the query itself.
#[derive(Clone, Copy, PartialEq, Eq, Structural, Debug)]
pub enum DbError {
    Env,
    Pool,
    Database,
}

/// The append-only message log behind the store interface the relays use:
/// append one text, list every record in storage order. Records are never
/// mutated once created, and identifiers grow monotonically.
pub struct Db {
    rows: Vec<Message>,
}

impl View for Db {
    type V = Seq<Message>;

    /// Every stored record, in storage order.
    closed spec fn view(&self) -> Seq<Message> {
        self.rows@
    }
}

impl Db {
    /// The texts the history listing reports, in storage order.
    pub open spec fn texts(&self) -> Seq<Seq<char>> {
        self@.map_values(|m: Message| text_of(m))
    }

    /// Identifiers count the records: the record at position `i` carries
    /// id `i + 1`, so ids grow monotonically.
    pub open spec fn wf(&self) -> bool {
        forall|i: int| 0 <= i < self@.len() ==> (#[trigger] self@[i]).id == i + 1
    }

    /// An empty log.
    pub fn new() -> (db: Db)
        ensures
            db.wf(),
            db@ == Seq::<Message>::empty(),
    {
        let db = Db { rows: Vec::new() };
        proof {
            assert(db@ =~= Seq::<Message>::empty());
        }
        db
    }

    /// Appends one text and returns the record created for it, exactly as
    /// it now stands in the log.
    pub fn insert_message(&mut self, message: &str) -> (stored: Message)
        requires
            old(self).wf(),
            old(self)@.len() < 0x7fff_ffff,
        ensures
            final(self).wf(),
            stored.id == old(self)@.len() + 1,
            stored.message matches Some(text) && text@ == message@,
            stored.updated is None,
            final(self)@ == old(self)@.push(stored),
            final(self).texts() == old(self).texts().push(message@),
    {
        let id: i32 = (self.rows.len() + 1) as i32;
        let text = String::from_str(message);
        let text_copy = text.clone();
        let stored = Message { id, message: Some(text_copy), updated: None };
        self.rows.push(Message { id, message: Some(text), updated: None });
        proof {
            assert(self@ == old(self)@.push(stored));
            assert(self.texts() =~= old(self).texts().push(message@));
        }
        stored
    }

    /// How many records the log holds.
    pub fn len(&self) -> (n: usize)
        ensures
            n == self@.len(),
    {
        self.rows.len()
    }

    /// Hands back a copy of every stored record, in storage order.
    pub fn get_messages(&self) -> (rows: Vec<Message>)
        ensures
            rows@ == self@,
    {
        let mut rows: Vec<Message> = Vec::new();
        let mut i: usize = 0;
        while i < self.rows.len()
            invariant
                i <= self@.len(),
                rows@ =~= self@.take(i as int),
            decreases self@.len() - i,
        {
            let original = &self.rows[i];
            let copied = Message {
                id: original.id,
                message: match &original.message {
                    Some(text) => Some(text.clone()),
                    None => None,
                },
                updated: original.updated,
            };
            rows.push(copied);
            proof {
                assert(rows@ =~= self@.take(i as int + 1));
            }
            i += 1;
        }
        proof {
            assert(self@.take(self@.len() as int) =~= self@);
        }
        rows
    }
}

/// The texts a history listing reports for these records, in storage order:
/// each record's text, or the empty text for a record that lacks one.
pub fn message_texts(rows: &Vec<Message>) -> (texts: Vec<String>)
    ensures
        texts@.map_values(|text: String| text@) == rows@.map_values(|m: Message| text_of(m)),
{
    let mut texts: Vec<String> = Vec::new();
    let mut i: usize = 0;
    while i < rows.len()
        invariant
            i <= rows@.len(),
            texts@.len() == i,
            forall|k: int| 0 <= k < i ==> (#[trigger] texts@[k])@ == text_of(rows@[k]),
        decreases rows@.len() - i,
    {
        let appended: String = match &rows[i].message {
            Some(text) => text.clone(),
            None => String::new(),
        };
        proof {
            assert(appended@ == text_of(rows@[i as int]));
        }
        texts.push(appended);
        i += 1;
    }
    proof {
        assert(texts@.map_values(|text: String| text@) =~= rows@.map_values(
            |m: Message| text_of(m),
        ));
    }
    texts
}

} // verus!
