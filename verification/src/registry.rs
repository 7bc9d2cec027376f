//! The device registry: an ordered, uniquely-keyed mapping from a
//! composite (location, name) identifier to a stored device, and the
//! report generator that walks it in ascending key order.

use vstd::prelude::*;
use vstd::string::StringExecFns;

use crate::devices::DeviceInfoProvider;
use crate::devices::SmartDevice;
use crate::strutil::lemma_lex_lt_asymmetric;
use crate::strutil::lemma_lex_lt_connected;
use crate::strutil::lemma_lex_lt_irreflexive;
use crate::strutil::lemma_lex_lt_transitive;
use crate::strutil::lex_lt;
use crate::strutil::str_lt;

verus! {

/// The composite identifier of a registry entry, unique within a registry.
pub struct DeviceId {
    pub location: String,
    pub name: String,
}

/// Strict order on identifiers: lexicographic by location, then by name.
pub open spec fn id_lt(a: DeviceId, b: DeviceId) -> bool {
    lex_lt(a.location@, b.location@) || (a.location@ == b.location@ && lex_lt(a.name@, b.name@))
}

/// Two identifiers denote the same registry key iff both components agree.
pub open spec fn id_eqv(a: DeviceId, b: DeviceId) -> bool {
    a.location@ == b.location@ && a.name@ == b.name@
}

/// `id_lt` is a strict total order up to `id_eqv`: any two identifiers are
/// ordered or equivalent, and the three cases exclude one another.
pub proof fn lemma_id_order(a: DeviceId, b: DeviceId)
    ensures
        id_lt(a, b) || id_lt(b, a) || id_eqv(a, b),
        !(id_lt(a, b) && id_lt(b, a)),
        id_eqv(a, b) ==> !id_lt(a, b) && !id_lt(b, a),
{
    lemma_lex_lt_irreflexive(a.location@);
    lemma_lex_lt_irreflexive(a.name@);
    lemma_lex_lt_irreflexive(b.location@);
    lemma_lex_lt_irreflexive(b.name@);
    if a.location@ != b.location@ {
        lemma_lex_lt_connected(a.location@, b.location@);
    } else if a.name@ != b.name@ {
        lemma_lex_lt_connected(a.name@, b.name@);
    }
    if lex_lt(a.location@, b.location@) {
        lemma_lex_lt_asymmetric(a.location@, b.location@);
    }
    if lex_lt(a.name@, b.name@) {
        lemma_lex_lt_asymmetric(a.name@, b.name@);
    }
}

/// `id_lt` is transitive.
pub proof fn lemma_id_lt_transitive(a: DeviceId, b: DeviceId, c: DeviceId)
    requires
        id_lt(a, b),
        id_lt(b, c),
    ensures
        id_lt(a, c),
{
    lemma_lex_lt_irreflexive(a.location@);
    lemma_lex_lt_irreflexive(b.location@);
    if lex_lt(a.location@, b.location@) && lex_lt(b.location@, c.location@) {
        lemma_lex_lt_transitive(a.location@, b.location@, c.location@);
    }
    if a.location@ == b.location@ && b.location@ == c.location@ {
        lemma_lex_lt_transitive(a.name@, b.name@, c.name@);
    }
}

/// Decides `id_lt` on two identifiers.
fn id_lt_exec(a: &DeviceId, b: &DeviceId) -> (r: bool)
    ensures
        r == id_lt(*a, *b),
{
    if str_lt(a.location.as_str(), b.location.as_str()) {
        true
    } else if a.location == b.location {
        str_lt(a.name.as_str(), b.name.as_str())
    } else {
        false
    }
}

/// Decides `id_eqv` on two identifiers.
fn id_eqv_exec(a: &DeviceId, b: &DeviceId) -> (r: bool)
    ensures
        r == id_eqv(*a, *b),
{
    a.location == b.location && a.name == b.name
}

/// Insertion into a key-ordered entry sequence: last write wins for an
/// equivalent key, and otherwise the entry lands at its ordered position.
pub open spec fn insert_entry(
    s: Seq<(DeviceId, SmartDevice)>,
    id: DeviceId,
    d: SmartDevice,
) -> Seq<(DeviceId, SmartDevice)>
    decreases s.len(),
{
    if s.len() == 0 {
        seq![(id, d)]
    } else if id_lt(id, s[0].0) {
        seq![(id, d)] + s
    } else if id_eqv(id, s[0].0) {
        seq![(id, d)] + s.drop_first()
    } else {
        seq![s[0]] + insert_entry(s.drop_first(), id, d)
    }
}

/// The entries are strictly ascending by key; in particular keys are unique.
pub open spec fn entries_sorted(s: Seq<(DeviceId, SmartDevice)>) -> bool {
    forall|i: int, j: int| 0 <= i < j < s.len() ==> id_lt(#[trigger] s[i].0, #[trigger] s[j].0)
}

/// Every stored device is well formed.
pub open spec fn entries_wf(s: Seq<(DeviceId, SmartDevice)>) -> bool {
    forall|i: int| 0 <= i < s.len() ==> (#[trigger] s[i]).1.wf()
}

/// Where the first `pos` keys sort below `id` and the key at `pos` does
/// not, `insert_entry` splices the new entry in at `pos`: over the key
/// already there when it is equivalent, before it otherwise.
proof fn lemma_insert_entry_splices(
    s: Seq<(DeviceId, SmartDevice)>,
    id: DeviceId,
    d: SmartDevice,
    pos: int,
)
    requires
        0 <= pos <= s.len(),
        forall|j: int| 0 <= j < pos ==> id_lt(#[trigger] s[j].0, id),
        pos < s.len() ==> !id_lt(s[pos].0, id),
    ensures
        pos < s.len() && id_eqv(id, s[pos].0) ==> insert_entry(s, id, d) =~= s.take(pos) + seq![
            (id, d),
        ] + s.skip(pos + 1),
        !(pos < s.len() && id_eqv(id, s[pos].0)) ==> insert_entry(s, id, d) =~= s.take(pos) + seq![
            (id, d),
        ] + s.skip(pos),
    decreases pos,
{
    if pos == 0 {
        if s.len() == 0 {
        } else if id_eqv(id, s[0].0) {
            lemma_id_order(id, s[0].0);
            assert(insert_entry(s, id, d) =~= s.take(0) + seq![(id, d)] + s.skip(1));
        } else {
            lemma_id_order(id, s[0].0);
            assert(id_lt(id, s[0].0));
            assert(insert_entry(s, id, d) =~= s.take(0) + seq![(id, d)] + s.skip(0));
        }
    } else {
        assert(id_lt(s[0].0, id));
        lemma_id_order(id, s[0].0);
        let rest = s.drop_first();
        assert(forall|j: int| 0 <= j < pos - 1 ==> id_lt(#[trigger] rest[j].0, id));
        lemma_insert_entry_splices(rest, id, d, pos - 1);
        assert(insert_entry(s, id, d) == seq![s[0]] + insert_entry(rest, id, d));
        if pos < s.len() && id_eqv(id, s[pos].0) {
            assert(rest[pos - 1] == s[pos]);
            assert(seq![s[0]] + (rest.take(pos - 1) + seq![(id, d)] + rest.skip(pos)) =~= s.take(
                pos,
            ) + seq![(id, d)] + s.skip(pos + 1));
        } else {
            assert(seq![s[0]] + (rest.take(pos - 1) + seq![(id, d)] + rest.skip(pos - 1)) =~= s.take(
                pos,
            ) + seq![(id, d)] + s.skip(pos));
        }
    }
}

/// Uniqueness under overwrite: inserting twice under equivalent keys
/// leaves exactly what a single insertion of the second device leaves —
/// one entry under that key, holding the later device.
pub proof fn lemma_insert_overwrites(
    s: Seq<(DeviceId, SmartDevice)>,
    a: DeviceId,
    d1: SmartDevice,
    b: DeviceId,
    d2: SmartDevice,
)
    requires
        id_eqv(a, b),
    ensures
        insert_entry(insert_entry(s, a, d1), b, d2) == insert_entry(s, b, d2),
    decreases s.len(),
{
    let t = insert_entry(s, a, d1);
    lemma_id_order(b, a);
    if s.len() == 0 {
        assert(insert_entry(t, b, d2) =~= insert_entry(s, b, d2));
    } else if id_lt(a, s[0].0) {
        assert(t[0] == (a, d1));
        assert(t.drop_first() =~= s);
        assert(insert_entry(t, b, d2) =~= insert_entry(s, b, d2));
    } else if id_eqv(a, s[0].0) {
        assert(t[0] == (a, d1));
        assert(t.drop_first() =~= s.drop_first());
        assert(insert_entry(t, b, d2) =~= insert_entry(s, b, d2));
    } else {
        assert(t[0] == s[0]);
        assert(t.drop_first() =~= insert_entry(s.drop_first(), a, d1));
        lemma_insert_overwrites(s.drop_first(), a, d1, b, d2);
        assert(insert_entry(t, b, d2) =~= insert_entry(s, b, d2));
    }
}

/// The inserted entry is present in the result: some position holds
/// exactly the given key and device.
pub proof fn lemma_insert_present(s: Seq<(DeviceId, SmartDevice)>, id: DeviceId, d: SmartDevice)
    ensures
        exists|i: int|
            0 <= i < insert_entry(s, id, d).len() && #[trigger] insert_entry(s, id, d)[i] == (
            id,
            d,
            ),
    decreases s.len(),
{
    let t = insert_entry(s, id, d);
    if s.len() == 0 || id_lt(id, s[0].0) || id_eqv(id, s[0].0) {
        assert(t[0] == (id, d));
    } else {
        lemma_insert_present(s.drop_first(), id, d);
        let j = choose|j: int|
            0 <= j < insert_entry(s.drop_first(), id, d).len() && #[trigger] insert_entry(
                s.drop_first(),
                id,
                d,
            )[j] == (id, d);
        assert(t[j + 1] == (id, d));
    }
}

proof fn lemma_insert_commutes_lt(
    s: Seq<(DeviceId, SmartDevice)>,
    a: DeviceId,
    d1: SmartDevice,
    b: DeviceId,
    d2: SmartDevice,
)
    requires
        id_lt(a, b),
    ensures
        insert_entry(insert_entry(s, a, d1), b, d2) == insert_entry(insert_entry(s, b, d2), a, d1),
    decreases s.len(),
{
    lemma_id_order(a, b);
    let ta = insert_entry(s, a, d1);
    let tb = insert_entry(s, b, d2);
    if s.len() == 0 {
        assert(ta[0] == (a, d1));
        assert(ta.drop_first() =~= Seq::<(DeviceId, SmartDevice)>::empty());
        assert(insert_entry(ta.drop_first(), b, d2) =~= seq![(b, d2)]);
        assert(insert_entry(ta, b, d2) =~= seq![(a, d1)] + seq![(b, d2)]);
        assert(tb[0] == (b, d2));
        assert(insert_entry(tb, a, d1) =~= seq![(a, d1)] + tb);
        assert(insert_entry(ta, b, d2) =~= insert_entry(tb, a, d1));
    } else {
        let h = s[0];
        if id_lt(a, h.0) {
            assert(ta[0] == (a, d1));
            assert(ta.drop_first() =~= s);
            // whichever branch built `tb`, its head key is `b` or `h.0`,
            // and `a` sorts below both, so `(a, d1)` lands in front.
            assert(tb.len() > 0);
            assert(tb[0] == (b, d2) || tb[0] == h);
            assert(insert_entry(tb, a, d1) =~= seq![(a, d1)] + tb);
            assert(insert_entry(ta, b, d2) =~= seq![(a, d1)] + tb);
        } else if id_eqv(a, h.0) {
            lemma_id_order(a, h.0);
            assert(ta[0] == (a, d1));
            assert(ta.drop_first() =~= s.drop_first());
            assert(id_lt(h.0, b));
            assert(tb[0] == h);
            assert(tb.drop_first() =~= insert_entry(s.drop_first(), b, d2));
            assert(insert_entry(ta, b, d2) =~= seq![(a, d1)] + insert_entry(
                s.drop_first(),
                b,
                d2,
            ));
            assert(insert_entry(tb, a, d1) =~= seq![(a, d1)] + insert_entry(
                s.drop_first(),
                b,
                d2,
            ));
        } else {
            lemma_id_order(a, h.0);
            assert(id_lt(h.0, a));
            lemma_id_lt_transitive(h.0, a, b);
            lemma_id_order(b, h.0);
            assert(ta[0] == h);
            assert(ta.drop_first() =~= insert_entry(s.drop_first(), a, d1));
            assert(tb[0] == h);
            assert(tb.drop_first() =~= insert_entry(s.drop_first(), b, d2));
            lemma_insert_commutes_lt(s.drop_first(), a, d1, b, d2);
            assert(insert_entry(ta, b, d2) =~= insert_entry(tb, a, d1));
        }
    }
}

/// Order independence: insertions under distinct keys commute, so the
/// registry's contents — and with them the report — depend only on the
/// set of insertions (last write winning per key), not on their order.
pub proof fn lemma_insert_commutes(
    s: Seq<(DeviceId, SmartDevice)>,
    a: DeviceId,
    d1: SmartDevice,
    b: DeviceId,
    d2: SmartDevice,
)
    requires
        !id_eqv(a, b),
    ensures
        insert_entry(insert_entry(s, a, d1), b, d2) == insert_entry(insert_entry(s, b, d2), a, d1),
{
    lemma_id_order(a, b);
    if id_lt(a, b) {
        lemma_insert_commutes_lt(s, a, d1, b, d2);
    } else {
        lemma_insert_commutes_lt(s, b, d2, a, d1);
    }
}

/// The report line of one entry: the key's name before its location, then
/// the device's validity-gated summary, then its identity label.
pub open spec fn report_line(id: DeviceId, d: SmartDevice) -> Seq<char> {
    "{ location: "@ + id.name@ + "@"@ + id.location@ + ", "@ + d.spec_status() + ", "@
        + d.spec_descriptor() + " }"@
}

/// The full report: one line per entry, in entry (= ascending key) order.
pub open spec fn spec_report(s: Seq<(DeviceId, SmartDevice)>) -> Seq<Seq<char>> {
    Seq::new(s.len(), |i: int| report_line(s[i].0, s[i].1))
}

/// The registry: an ordered, uniquely-keyed collection owning all devices.
pub struct SmartHouse {
    devices: Vec<(DeviceId, SmartDevice)>,
}

impl SmartHouse {
    /// The entries, in storage (= ascending key) order.
    pub closed spec fn entries(&self) -> Seq<(DeviceId, SmartDevice)> {
        self.devices@
    }

    /// The registry invariant: entries strictly ascending by key, every
    /// device well formed.
    pub open spec fn wf(&self) -> bool {
        entries_sorted(self.entries()) && entries_wf(self.entries())
    }

    /// An empty registry.
    pub fn new() -> (r: SmartHouse)
        ensures
            r.wf(),
            r.entries() == Seq::<(DeviceId, SmartDevice)>::empty(),
    {
        let devices: Vec<(DeviceId, SmartDevice)> = Vec::new();
        SmartHouse { devices }
    }

    /// Inserts the device under the key built from `location` and `name`.
    /// An entry under an equivalent key is silently replaced: last write
    /// wins; any other entries and their order are untouched.
    pub fn add_device(&mut self, location: String, name: String, device: SmartDevice)
        requires
            old(self).wf(),
            device.wf(),
        ensures
            final(self).wf(),
            final(self).entries() == insert_entry(
                old(self).entries(),
                (DeviceId { location, name }),
                device,
            ),
    {
        let key = DeviceId { location, name };
        let ghost s = self.devices@;
        let mut pos: usize = 0;
        while pos < self.devices.len() && id_lt_exec(&self.devices[pos].0, &key)
            invariant
                self.devices@ == s,
                0 <= pos <= s.len(),
                forall|j: int| 0 <= j < pos ==> id_lt(#[trigger] s[j].0, key),
            decreases s.len() - pos,
        {
            pos = pos + 1;
        }
        proof {
            lemma_insert_entry_splices(s, key, device, pos as int);
        }
        if pos < self.devices.len() && id_eqv_exec(&self.devices[pos].0, &key) {
            let _ = self.devices.remove(pos);
            self.devices.insert(pos, (key, device));
            proof {
                assert(self.devices@ =~= s.take(pos as int) + seq![
                    ((DeviceId { location, name }), device),
                ] + s.skip(pos as int + 1));
                lemma_id_order(key, s[pos as int].0);
                assert forall|i: int, j: int|
                    0 <= i < j < self.devices@.len() implies id_lt(
                    #[trigger] self.devices@[i].0,
                    #[trigger] self.devices@[j].0,
                ) by {
                    if j == pos as int && i < pos as int {
                        assert(id_lt(s[i].0, key));
                    }
                    if i == pos as int && j > pos as int {
                        assert(id_lt(s[pos as int].0, s[j].0));
                    }
                }
                assert(entries_wf(self.devices@));
            }
        } else {
            self.devices.insert(pos, (key, device));
            proof {
                assert(self.devices@ =~= s.take(pos as int) + seq![
                    ((DeviceId { location, name }), device),
                ] + s.skip(pos as int));
                if (pos as int) < s.len() {
                    lemma_id_order(key, s[pos as int].0);
                    assert(id_lt(key, s[pos as int].0));
                }
                assert forall|i: int, j: int|
                    0 <= i < j < self.devices@.len() implies id_lt(
                    #[trigger] self.devices@[i].0,
                    #[trigger] self.devices@[j].0,
                ) by {
                    if i == pos as int && j > pos as int + 1 {
                        lemma_id_lt_transitive(key, s[pos as int].0, s[j - 1].0);
                    }
                }
                assert(entries_wf(self.devices@));
            }
        }
    }

    /// Renders one formatted line per registered device, in ascending key
    /// order. Reading mutates nothing, so repeated calls yield identical
    /// reports.
    pub fn create_report(&self) -> (r: Vec<String>)
        ensures
            r.deep_view() == spec_report(self.entries()),
    {
        let mut result: Vec<String> = Vec::new();
        let mut i: usize = 0;
        while i < self.devices.len()
            invariant
                0 <= i <= self.devices@.len(),
                result@.len() == i,
                forall|j: int|
                    0 <= j < i ==> (#[trigger] result@[j])@ == report_line(
                        self.devices@[j].0,
                        self.devices@[j].1,
                    ),
            decreases self.devices@.len() - i,
        {
            let entry: &(DeviceId, SmartDevice) = &self.devices[i];
            let mut line: String = String::from_str("{ location: ");
            line.append(entry.0.name.as_str());
            line.append("@");
            line.append(entry.0.location.as_str());
            line.append(", ");
            let status: String = entry.1.get_state();
            line.append(status.as_str());
            line.append(", ");
            line.append(entry.1.descriptor());
            line.append(" }");
            result.push(line);
            i = i + 1;
        }
        proof {
            assert(result.deep_view() =~= spec_report(self.entries()));
        }
        result
    }
}

/// Report ordering: in a well-formed registry the report has one line per
/// entry, and consecutive lines belong to strictly ascending keys.
pub proof fn lemma_report_in_key_order(h: &SmartHouse)
    requires
        h.wf(),
    ensures
        spec_report(h.entries()).len() == h.entries().len(),
        forall|i: int|
            0 <= i < h.entries().len() ==> spec_report(h.entries())[i] == report_line(
                (#[trigger] h.entries()[i]).0,
                h.entries()[i].1,
            ),
        forall|i: int, j: int|
            0 <= i < j < h.entries().len() ==> id_lt(
                (#[trigger] h.entries()[i]).0,
                (#[trigger] h.entries()[j]).0,
            ),
{
}

/// Key uniqueness: no two entries of a well-formed registry share a key,
/// so an insertion under an existing key can only have replaced it.
pub proof fn lemma_registry_keys_unique(h: &SmartHouse)
    requires
        h.wf(),
    ensures
        forall|i: int, j: int|
            0 <= i < j < h.entries().len() ==> !id_eqv(
                (#[trigger] h.entries()[i]).0,
                (#[trigger] h.entries()[j]).0,
            ),
{
    assert forall|i: int, j: int| 0 <= i < j < h.entries().len() implies !id_eqv(
        (#[trigger] h.entries()[i]).0,
        (#[trigger] h.entries()[j]).0,
    ) by {
        lemma_id_order(h.entries()[i].0, h.entries()[j].0);
    }
}

/// Idempotence of reporting: reading the registry mutates nothing, so any
/// two reports generated from the same registry state are identical.
pub proof fn lemma_report_idempotent(h: &SmartHouse, r1: Seq<Seq<char>>, r2: Seq<Seq<char>>)
    requires
        r1 == spec_report(h.entries()),
        r2 == spec_report(h.entries()),
    ensures
        r1 == r2,
{
}

} // verus!
