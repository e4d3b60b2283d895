//! The commands that a session has issued: their identifiers, and the controls whose responses
//! are still to come.

use vstd::prelude::*;

use crate::text;
use crate::text::{decimal, text_eq};

verus! {

/// The commands that control a running turn.
#[derive(Debug, Clone, Copy, PartialEq, Eq, Structural)]
pub enum ControlKind {
    Steer,
    Abort,
}

impl ControlKind {
    /// The name of the command.
    pub open spec fn spec_name(self) -> Seq<char> {
        match self {
            ControlKind::Steer => "steer"@,
            ControlKind::Abort => "abort"@,
        }
    }

    /// The name of the command.
    pub fn name(self) -> (name: &'static str)
        ensures
            name@ == self.spec_name(),
    {
        match self {
            ControlKind::Steer => "steer",
            ControlKind::Abort => "abort",
        }
    }
}

/// A control whose response is still to come, with the turn that issued it.
#[derive(Debug)]
pub struct PendingControl {
    pub id: String,
    pub kind: ControlKind,
    pub turn: u64,
}

/// The controls whose responses are still to come, each under its identifier.
#[derive(Debug)]
pub struct PendingControls {
    pub entries: Vec<PendingControl>,
}

/// The position of the control with an identifier.
pub open spec fn holds_at(entries: Seq<PendingControl>, id: Seq<char>, i: int) -> bool {
    0 <= i < entries.len() && entries[i].id@ == id
}

impl View for PendingControls {
    type V = Map<Seq<char>, (ControlKind, u64)>;

    open spec fn view(&self) -> Map<Seq<char>, (ControlKind, u64)> {
        Map::new(
            |id: Seq<char>| exists|i: int| holds_at(self.entries@, id, i),
            |id: Seq<char>|
                {
                    let i = choose|i: int| holds_at(self.entries@, id, i);
                    (self.entries@[i].kind, self.entries@[i].turn)
                },
        )
    }
}

impl PendingControls {
    /// No identifier occurs twice.
    pub open spec fn wf(self) -> bool {
        forall|i: int, j: int|
            0 <= i < j < self.entries@.len() ==> (#[trigger] self.entries@[i]).id@ != (
            #[trigger] self.entries@[j]).id@
    }

    proof fn lemma_at(self, i: int)
        requires
            self.wf(),
            0 <= i < self.entries@.len(),
        ensures
            self@.dom().contains(self.entries@[i].id@),
            self@[self.entries@[i].id@] == (self.entries@[i].kind, self.entries@[i].turn),
    {
        let id = self.entries@[i].id@;
        assert(holds_at(self.entries@, id, i));
        let k = choose|k: int| holds_at(self.entries@, id, k);
        assert(holds_at(self.entries@, id, k));
        assert(k == i);
    }

    proof fn lemma_dom(self, id: Seq<char>)
        ensures
            self@.dom().contains(id) <==> exists|i: int| holds_at(self.entries@, id, i),
    {
    }

    /// There are as many entries as identifiers.
    pub proof fn lemma_len(self)
        requires
            self.wf(),
        ensures
            self@.dom().finite(),
            self@.len() == self.entries@.len(),
    {
        let ids = Seq::new(self.entries@.len(), |i: int| self.entries@[i].id@);
        assert(ids.no_duplicates());
        ids.unique_seq_to_set();
        assert forall|id: Seq<char>| ids.to_set().contains(id) <==> self@.dom().contains(id) by {
            self.lemma_dom(id);
            if ids.contains(id) {
                let i = choose|i: int| 0 <= i < ids.len() && ids[i] == id;
                assert(holds_at(self.entries@, id, i));
            }
            if self@.dom().contains(id) {
                let i = choose|i: int| holds_at(self.entries@, id, i);
                assert(ids[i] == id);
            }
        }
        assert(ids.to_set() =~= self@.dom());
    }

    /// No controls.
    pub fn new() -> (controls: PendingControls)
        ensures
            controls.wf(),
            controls@ == Map::<Seq<char>, (ControlKind, u64)>::empty(),
    {
        let controls = PendingControls { entries: Vec::new() };
        assert(controls@ =~= Map::<Seq<char>, (ControlKind, u64)>::empty());
        controls
    }

    /// How many there are.
    pub fn len(&self) -> (n: usize)
        requires
            self.wf(),
        ensures
            n == self@.len(),
            self@.dom().finite(),
    {
        proof {
            self.lemma_len();
        }
        self.entries.len()
    }

    fn position(&self, id: &str) -> (at: Option<usize>)
        requires
            self.wf(),
        ensures
            match at {
                Some(i) => holds_at(self.entries@, id@, i as int),
                None => !self@.dom().contains(id@),
            },
    {
        let mut i: usize = 0;
        while i < self.entries.len()
            invariant
                i <= self.entries@.len(),
                forall|j: int| 0 <= j < i ==> !holds_at(self.entries@, id@, j),
            decreases self.entries@.len() - i,
        {
            if text_eq(self.entries[i].id.as_str(), id) {
                return Some(i);
            }
            i += 1;
        }
        proof {
            self.lemma_dom(id@);
        }
        None
    }

    /// Records a control under its identifier, in the place of what stood there.
    pub fn insert(&mut self, id: String, kind: ControlKind, turn: u64)
        requires
            old(self).wf(),
        ensures
            final(self).wf(),
            final(self)@ == old(self)@.insert(id@, (kind, turn)),
    {
        let ghost before = *self;
        let ghost key = id@;
        match self.position(id.as_str()) {
            Some(i) => {
                self.entries.set(i, PendingControl { id, kind, turn });
                proof {
                    assert(self.wf());
                    assert forall|other: Seq<char>|
                        #![trigger self@.dom().contains(other)]
                        self@.dom().contains(other) == before@.insert(
                            key,
                            (kind, turn),
                        ).dom().contains(other) by {
                        if exists|k: int| holds_at(self.entries@, other, k) {
                            let k = choose|k: int| holds_at(self.entries@, other, k);
                            assert(holds_at(before.entries@, other, k));
                        }
                        if exists|k: int| holds_at(before.entries@, other, k) {
                            let k = choose|k: int| holds_at(before.entries@, other, k);
                            assert(holds_at(self.entries@, other, k));
                        }
                    }
                    assert forall|other: Seq<char>| #[trigger] self@.dom().contains(other) implies self@[other]
                        == before@.insert(key, (kind, turn))[other] by {
                        let k = choose|k: int| holds_at(self.entries@, other, k);
                        assert(holds_at(self.entries@, other, k));
                        self.lemma_at(k);
                        if k != i {
                            assert(holds_at(before.entries@, other, k));
                            before.lemma_at(k);
                        }
                    }
                    assert(self@ =~= before@.insert(key, (kind, turn)));
                }
            },
            None => {
                self.entries.push(PendingControl { id, kind, turn });
                proof {
                    let n = before.entries@.len() as int;
                    assert forall|j: int| 0 <= j < n implies (#[trigger] self.entries@[j]).id@
                        != key by {
                        if self.entries@[j].id@ == key {
                            assert(holds_at(before.entries@, key, j));
                        }
                    }
                    assert(self.wf());
                    assert forall|other: Seq<char>|
                        #![trigger self@.dom().contains(other)]
                        self@.dom().contains(other) == before@.insert(
                            key,
                            (kind, turn),
                        ).dom().contains(other) by {
                        if exists|k: int| holds_at(self.entries@, other, k) {
                            let k = choose|k: int| holds_at(self.entries@, other, k);
                            if k < n {
                                assert(holds_at(before.entries@, other, k));
                            }
                        }
                        if exists|k: int| holds_at(before.entries@, other, k) {
                            let k = choose|k: int| holds_at(before.entries@, other, k);
                            assert(holds_at(self.entries@, other, k));
                        }
                        if other == key {
                            assert(holds_at(self.entries@, other, n));
                        }
                    }
                    assert forall|other: Seq<char>| #[trigger] self@.dom().contains(other) implies self@[other]
                        == before@.insert(key, (kind, turn))[other] by {
                        let k = choose|k: int| holds_at(self.entries@, other, k);
                        assert(holds_at(self.entries@, other, k));
                        self.lemma_at(k);
                        if k != n {
                            assert(holds_at(before.entries@, other, k));
                            before.lemma_at(k);
                        }
                    }
                    assert(self@ =~= before@.insert(key, (kind, turn)));
                }
            },
        }
    }

    /// Takes out the control with an identifier, where there is one.
    pub fn remove(&mut self, id: &str) -> (removed: Option<(ControlKind, u64)>)
        requires
            old(self).wf(),
        ensures
            final(self).wf(),
            final(self)@ == old(self)@.remove(id@),
            match removed {
                Some(control) => old(self)@.dom().contains(id@) && old(self)@[id@] == control,
                None => !old(self)@.dom().contains(id@),
            },
    {
        let ghost before = *self;
        match self.position(id) {
            Some(i) => {
                proof {
                    before.lemma_at(i as int);
                }
                let entry = self.entries.remove(i);
                proof {
                    let at = |k: int|
                        if k < i {
                            k
                        } else {
                            k + 1
                        };
                    assert(forall|k: int|
                        0 <= k < self.entries@.len() ==> #[trigger] self.entries@[k]
                            == before.entries@[at(k)]);
                    assert(self.wf());
                    assert forall|other: Seq<char>|
                        #![trigger self@.dom().contains(other)]
                        self@.dom().contains(other) == before@.remove(id@).dom().contains(other) by {
                        if exists|k: int| holds_at(self.entries@, other, k) {
                            let k = choose|k: int| holds_at(self.entries@, other, k);
                            assert(holds_at(before.entries@, other, at(k)));
                            assert(before.entries@[i as int].id@ == id@);
                        }
                        if other != id@ && exists|k: int| holds_at(before.entries@, other, k) {
                            let k = choose|k: int| holds_at(before.entries@, other, k);
                            if k < i {
                                assert(holds_at(self.entries@, other, k));
                            } else {
                                assert(self.entries@[k - 1] == before.entries@[at(k - 1)]);
                                assert(holds_at(self.entries@, other, k - 1));
                            }
                        }
                    }
                    assert forall|other: Seq<char>| #[trigger] self@.dom().contains(other) implies self@[other]
                        == before@.remove(id@)[other] by {
                        let k = choose|k: int| holds_at(self.entries@, other, k);
                        assert(holds_at(self.entries@, other, k));
                        self.lemma_at(k);
                        before.lemma_at(at(k));
                    }
                    assert(self@ =~= before@.remove(id@));
                }
                Some((entry.kind, entry.turn))
            },
            None => {
                assert(before@ =~= before@.remove(id@));
                None
            },
        }
    }
}

/// The identifier of a command with a sequence number.
pub open spec fn spec_command_id(command: Seq<char>, number: u64) -> Seq<char> {
    "centaur-"@ + command + "-"@ + text::spec_decimal(number as nat)
}

/// The number after `number`; the largest number is its own successor.
pub open spec fn next_number(number: u64) -> u64 {
    if number == u64::MAX {
        number
    } else {
        (number + 1) as u64
    }
}

/// What a session keeps of the commands that it has issued.
#[derive(Debug)]
pub struct CommandLedger {
    /// The sequence number of the next command.
    pub next_id: u64,
    pub pending: PendingControls,
}

/// The content of a [`CommandLedger`].
pub struct LedgerView {
    pub next_id: u64,
    pub pending: Map<Seq<char>, (ControlKind, u64)>,
}

impl View for CommandLedger {
    type V = LedgerView;

    open spec fn view(&self) -> LedgerView {
        LedgerView { next_id: self.next_id, pending: self.pending@ }
    }
}

/// Whether an identifier is that of a command with a name.
pub open spec fn is_command(id: Seq<char>, name: Seq<char>) -> bool {
    exists|number: u64| id == #[trigger] spec_command_id(name, number)
}

impl LedgerView {
    /// Whether every control that is still to be answered has an identifier of its own kind.
    pub open spec fn identified(self) -> bool {
        forall|id: Seq<char>| #[trigger]
            self.pending.dom().contains(id) ==> is_command(id, self.pending[id].0.spec_name())
    }

    /// After a command has been numbered.
    pub open spec fn numbered(self) -> LedgerView {
        LedgerView { next_id: next_number(self.next_id), ..self }
    }

    /// After a control has been recorded.
    pub open spec fn recorded(self, id: Seq<char>, kind: ControlKind, turn: u64) -> LedgerView {
        LedgerView { pending: self.pending.insert(id, (kind, turn)), ..self }
    }

    /// After the response to a control has come.
    pub open spec fn answered(self, id: Seq<char>) -> LedgerView {
        LedgerView { pending: self.pending.remove(id), ..self }
    }
}

impl CommandLedger {
    pub open spec fn wf(self) -> bool {
        self.pending.wf()
    }

    /// The ledger of a new session.
    pub fn new() -> (ledger: CommandLedger)
        ensures
            ledger.wf(),
            ledger@ == (LedgerView { next_id: 1, pending: Map::empty() }),
            ledger@.identified(),
    {
        CommandLedger { next_id: 1, pending: PendingControls::new() }
    }

    /// The identifier for the next command.
    pub fn command_id(&mut self, command: &str) -> (id: String)
        requires
            old(self).wf(),
        ensures
            final(self).wf(),
            id@ == spec_command_id(command@, old(self)@.next_id),
            final(self)@ == old(self)@.numbered(),
    {
        let mut id = "centaur-".to_owned();
        id.append(command);
        id.append("-");
        id.append(decimal(self.next_id).as_str());
        self.next_id = self.next_id.saturating_add(1);
        id
    }
}

proof fn lemma_last_dash(a: Seq<char>, b: Seq<char>, x: Seq<char>, y: Seq<char>)
    requires
        a + seq!['-'] + x == b + seq!['-'] + y,
        forall|i: int| 0 <= i < x.len() ==> '0' <= #[trigger] x[i] <= '9',
        forall|i: int| 0 <= i < y.len() ==> '0' <= #[trigger] y[i] <= '9',
    ensures
        a == b,
        x == y,
{
    let dash = seq!['-'];
    assert(dash.len() == 1 && dash[0] == '-');
    let left = a + dash + x;
    let right = b + dash + y;
    assert((a + dash).len() == a.len() + 1);
    assert((b + dash).len() == b.len() + 1);
    assert(left.len() == a.len() + 1 + x.len());
    assert(right.len() == b.len() + 1 + y.len());
    assert(forall|i: int| 0 <= i < x.len() ==> left[a.len() + 1 + i] == #[trigger] x[i]);
    assert(forall|i: int| 0 <= i < y.len() ==> right[b.len() + 1 + i] == #[trigger] y[i]);
    assert(left == right);
    if a.len() < b.len() {
        assert(right[b.len() as int] == '-');
        assert(left[b.len() as int] == x[b.len() - a.len() - 1]);
    } else if b.len() < a.len() {
        assert(left[a.len() as int] == '-');
        assert(right[a.len() as int] == y[a.len() - b.len() - 1]);
    }
    assert(a.len() == b.len());
    assert forall|i: int| 0 <= i < a.len() implies a[i] == b[i] by {
        assert(left[i] == right[i]);
    }
    assert forall|i: int| 0 <= i < x.len() implies x[i] == y[i] by {
        assert(left[a.len() + 1 + i] == right[a.len() + 1 + i]);
    }
    assert(a =~= b);
    assert(x =~= y);
}

/// Two commands with the same identifier have the same name and the same sequence number.
pub proof fn law_command_ids_identify(c: Seq<char>, n: u64, d: Seq<char>, m: u64)
    requires
        spec_command_id(c, n) == spec_command_id(d, m),
    ensures
        c == d,
        n == m,
{
    reveal_strlit("-");
    reveal_strlit("centaur-");
    assert("-"@ =~= seq!['-']);
    let x = text::spec_decimal(n as nat);
    let y = text::spec_decimal(m as nat);
    text::lemma_decimal_digits(n as nat);
    text::lemma_decimal_digits(m as nat);
    lemma_last_dash("centaur-"@ + c, "centaur-"@ + d, x, y);
    text::lemma_decimal_injective(n as nat, m as nat);
    let a = "centaur-"@ + c;
    let b = "centaur-"@ + d;
    assert(c.len() == d.len());
    assert forall|i: int| 0 <= i < c.len() implies c[i] == d[i] by {
        assert(a[8 + i] == b[8 + i]);
    }
    assert(c =~= d);
}

/// An identifier tells the name of its command.
pub proof fn lemma_identifier_tells_name(id: Seq<char>, a: Seq<char>, b: Seq<char>)
    requires
        is_command(id, a),
        is_command(id, b),
    ensures
        a == b,
{
    let n = choose|n: u64| id == #[trigger] spec_command_id(a, n);
    let m = choose|m: u64| id == #[trigger] spec_command_id(b, m);
    law_command_ids_identify(a, n, b, m);
}

/// Until the largest sequence number is reached, no two commands of a session get the same
/// identifier: the number of each is greater than that of those before it.
pub proof fn law_numbers_increase(ledger: LedgerView)
    requires
        ledger.next_id < u64::MAX,
    ensures
        ledger.numbered().next_id > ledger.next_id,
{
}

} // verus!
