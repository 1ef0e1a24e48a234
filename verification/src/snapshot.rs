use vstd::prelude::*;

verus! {

/// What one wireless station reports when queried: its station address
/// bytes and its raw signal attribute bytes, either of which the driver may
/// leave out.
pub struct RawStation {
    pub bssid: Option<Vec<u8>>,
    pub signal: Option<Vec<u8>>,
}

/// Uppercase hexadecimal digit of a value below sixteen.
pub open spec fn hex_char(v: u8) -> char
    recommends
        v < 16,
{
    if v == 0 {
        '0'
    } else if v == 1 {
        '1'
    } else if v == 2 {
        '2'
    } else if v == 3 {
        '3'
    } else if v == 4 {
        '4'
    } else if v == 5 {
        '5'
    } else if v == 6 {
        '6'
    } else if v == 7 {
        '7'
    } else if v == 8 {
        '8'
    } else if v == 9 {
        '9'
    } else if v == 10 {
        'A'
    } else if v == 11 {
        'B'
    } else if v == 12 {
        'C'
    } else if v == 13 {
        'D'
    } else if v == 14 {
        'E'
    } else {
        'F'
    }
}

/// The two uppercase hexadecimal digits of one byte.
pub open spec fn hex_byte(b: u8) -> Seq<char> {
    seq![hex_char(b / 16), hex_char(b % 16)]
}

/// Bytes written as uppercase hexadecimal pairs joined by colons, the
/// canonical textual form of a station address.
pub open spec fn hex_colon(bytes: Seq<u8>) -> Seq<char>
    decreases bytes.len(),
{
    if bytes.len() == 0 {
        Seq::empty()
    } else if bytes.len() == 1 {
        hex_byte(bytes[0])
    } else {
        hex_colon(bytes.drop_last()) + seq![':'] + hex_byte(bytes.last())
    }
}

/// A one-byte signal attribute read as a signed value, two's complement.
pub open spec fn signal_value(b: u8) -> int {
    if b < 128 {
        b as int
    } else {
        b - 256
    }
}

/// Relies on nl80211::parse_hex: encodes the bytes as uppercase hexadecimal
/// digit pairs joined by colons.
#[verifier::external_body]
fn format_bssid(bytes: &Vec<u8>) -> (r: String)
    ensures
        r@ == hex_colon(bytes@),
{
    nl80211::parse_hex(bytes)
}

/// Relies on nl80211::parse_i8: reads a single byte as a signed
/// two's-complement integer, and panics unless given exactly one byte.
#[verifier::external_body]
fn read_signal(bytes: &Vec<u8>) -> (r: i8)
    requires
        bytes@.len() == 1,
    ensures
        r as int == signal_value(bytes@[0]),
{
    nl80211::parse_i8(bytes)
}

/// The snapshot entry a queried station contributes: its address in
/// canonical form with its signal reading, or nothing when the address or a
/// readable one-byte signal is missing.
pub open spec fn entry_of(st: RawStation) -> Seq<(Seq<char>, int)> {
    if st.bssid is Some && st.signal is Some && st.signal->Some_0@.len() == 1 {
        seq![(hex_colon(st.bssid->Some_0@), signal_value(st.signal->Some_0@[0]))]
    } else {
        Seq::empty()
    }
}

/// The snapshot entries of a sequence of queried stations, in order.
pub open spec fn entries_of(stations: Seq<RawStation>) -> Seq<(Seq<char>, int)>
    decreases stations.len(),
{
    if stations.len() == 0 {
        Seq::empty()
    } else {
        entries_of(stations.drop_last()) + entry_of(stations.last())
    }
}

/// View of stored snapshot entries as address and reading pairs.
pub open spec fn entries_view(es: Seq<(String, i8)>) -> Seq<(Seq<char>, int)> {
    es.map(|j: int, e: (String, i8)| (e.0@, e.1 as int))
}

/// Canonical form of one address character: a lowercase hexadecimal digit
/// is uppercased and a dash separator becomes a colon; anything else is
/// kept.
pub open spec fn canonical_char(c: char) -> char {
    if c == 'a' {
        'A'
    } else if c == 'b' {
        'B'
    } else if c == 'c' {
        'C'
    } else if c == 'd' {
        'D'
    } else if c == 'e' {
        'E'
    } else if c == 'f' {
        'F'
    } else if c == '-' {
        ':'
    } else {
        c
    }
}

/// Canonical form of a station address: every character canonicalized, so
/// that case and separator choice do not matter when addresses are matched.
pub open spec fn canonical_addr(s: Seq<char>) -> Seq<char> {
    s.map(|i: int, c: char| canonical_char(c))
}

/// Canonical form of one address character.
fn canonical_char_exec(c: char) -> (r: char)
    ensures
        r == canonical_char(c),
{
    if c == 'a' {
        'A'
    } else if c == 'b' {
        'B'
    } else if c == 'c' {
        'C'
    } else if c == 'd' {
        'D'
    } else if c == 'e' {
        'E'
    } else if c == 'f' {
        'F'
    } else if c == '-' {
        ':'
    } else {
        c
    }
}

/// Two station addresses match: they are equal after canonicalization.
pub fn addr_eq(a: &str, b: &str) -> (r: bool)
    ensures
        r == (canonical_addr(a@) == canonical_addr(b@)),
{
    let la = a.unicode_len();
    let lb = b.unicode_len();
    if la != lb {
        proof {
            assert(canonical_addr(a@).len() == a@.len());
            assert(canonical_addr(b@).len() == b@.len());
        }
        return false;
    }
    let mut i: usize = 0;
    while i < la
        invariant
            0 <= i <= la,
            la == a@.len(),
            la == b@.len(),
            forall|j: int| 0 <= j < i ==> canonical_char(a@[j]) == canonical_char(b@[j]),
        decreases la - i,
    {
        let ca = canonical_char_exec(a.get_char(i));
        let cb = canonical_char_exec(b.get_char(i));
        if ca != cb {
            proof {
                assert(canonical_addr(a@)[i as int] != canonical_addr(b@)[i as int]);
            }
            return false;
        }
        i += 1;
    }
    proof {
        assert(canonical_addr(a@) =~= canonical_addr(b@));
    }
    true
}

/// The reading stored for an address, matched by exact equality after
/// canonicalization; when an address occurs more than once, the last
/// occurrence wins.
pub open spec fn snap_lookup(es: Seq<(String, i8)>, addr: Seq<char>) -> Option<i8>
    decreases es.len(),
{
    if es.len() == 0 {
        None
    } else if canonical_addr(es.last().0@) == canonical_addr(addr) {
        Some(es.last().1)
    } else {
        snap_lookup(es.drop_last(), addr)
    }
}

/// A canonicalized character of an uppercase hexadecimal digit pair is
/// itself.
proof fn lemma_hex_char_canonical(v: u8)
    ensures
        canonical_char(hex_char(v)) == hex_char(v),
{
}

/// Law: snapshot keys are already canonical: the canonical textual form of
/// an address is a fixed point of canonicalization.
pub proof fn lemma_hex_colon_canonical(bytes: Seq<u8>)
    ensures
        canonical_addr(hex_colon(bytes)) == hex_colon(bytes),
    decreases bytes.len(),
{
    if bytes.len() == 0 {
        assert(canonical_addr(hex_colon(bytes)) =~= hex_colon(bytes));
    } else if bytes.len() == 1 {
        lemma_hex_char_canonical(bytes[0] / 16);
        lemma_hex_char_canonical(bytes[0] % 16);
        assert(canonical_addr(hex_colon(bytes)) =~= hex_colon(bytes));
    } else {
        lemma_hex_colon_canonical(bytes.drop_last());
        lemma_hex_char_canonical(bytes.last() / 16);
        lemma_hex_char_canonical(bytes.last() % 16);
        assert(canonical_addr(hex_colon(bytes)) =~= hex_colon(bytes));
    }
}

/// Law: matching is exact equality after canonicalization: two address
/// writings with the same canonical form always look up alike.
pub proof fn lemma_lookup_canonical(es: Seq<(String, i8)>, a: Seq<char>, b: Seq<char>)
    requires
        canonical_addr(a) == canonical_addr(b),
    ensures
        snap_lookup(es, a) == snap_lookup(es, b),
    decreases es.len(),
{
    if es.len() > 0 {
        lemma_lookup_canonical(es.drop_last(), a, b);
    }
}

/// The reading an address maps to at the view level, matched by exact
/// equality after canonicalization, last occurrence winning.
pub open spec fn view_lookup(m: Seq<(Seq<char>, int)>, addr: Seq<char>) -> Option<int>
    decreases m.len(),
{
    if m.len() == 0 {
        None
    } else if canonical_addr(m.last().0) == canonical_addr(addr) {
        Some(m.last().1)
    } else {
        view_lookup(m.drop_last(), addr)
    }
}

/// Law: looking an address up among the stored entries agrees with the
/// view-level lookup on their view; with the builder's contract this says
/// a built snapshot answers queries from the stations' own entries.
pub proof fn lemma_lookup_matches_view(es: Seq<(String, i8)>, addr: Seq<char>)
    ensures
        view_lookup(entries_view(es), addr) == match snap_lookup(es, addr) {
            Some(v) => Some(v as int),
            None => None,
        },
    decreases es.len(),
{
    if es.len() > 0 {
        assert(entries_view(es).drop_last() =~= entries_view(es.drop_last()));
        assert(entries_view(es).last() == (es.last().0@, es.last().1 as int));
        lemma_lookup_matches_view(es.drop_last(), addr);
    }
}

/// One evaluation cycle's mapping from station address to signal reading,
/// rebuilt from the station query before every cycle and discarded after.
pub struct Snapshot {
    pub entries: Vec<(String, i8)>,
}

impl Snapshot {
    /// Builds the snapshot from the flattened station query results:
    /// stations without an address or without a readable one-byte signal
    /// are omitted, and duplicate addresses resolve last-write-wins.
    pub fn build(stations: &Vec<RawStation>) -> (snap: Snapshot)
        ensures
            entries_view(snap.entries@) == entries_of(stations@),
    {
        let mut entries: Vec<(String, i8)> = Vec::new();
        let mut i: usize = 0;
        while i < stations.len()
            invariant
                0 <= i <= stations@.len(),
                entries_view(entries@) == entries_of(stations@.subrange(0, i as int)),
            decreases stations@.len() - i,
        {
            let st = &stations[i];
            proof {
                assert(stations@.subrange(0, i + 1).drop_last() =~= stations@.subrange(
                    0,
                    i as int,
                ));
                assert(stations@.subrange(0, i + 1).last() == stations@[i as int]);
            }
            if let Some(b) = &st.bssid {
                if let Some(s) = &st.signal {
                    if s.len() == 1 {
                        let addr = format_bssid(b);
                        let sig = read_signal(s);
                        entries.push((addr, sig));
                    }
                }
            }
            proof {
                assert(entries_view(entries@) =~= entries_of(stations@.subrange(0, i + 1)));
            }
            i += 1;
        }
        proof {
            assert(stations@.subrange(0, stations@.len() as int) =~= stations@);
        }
        Snapshot { entries }
    }

    /// The signal reading recorded for a station address, when one is;
    /// the address is matched by exact equality after canonicalization, so
    /// a configured address in another case or with dash separators still
    /// finds its station.
    pub fn lookup(&self, addr: &String) -> (r: Option<i8>)
        ensures
            r == snap_lookup(self.entries@, addr@),
    {
        let mut found: Option<i8> = None;
        let mut i: usize = 0;
        while i < self.entries.len()
            invariant
                0 <= i <= self.entries@.len(),
                found == snap_lookup(self.entries@.subrange(0, i as int), addr@),
            decreases self.entries@.len() - i,
        {
            proof {
                assert(self.entries@.subrange(0, i + 1).drop_last() =~= self.entries@.subrange(
                    0,
                    i as int,
                ));
                assert(self.entries@.subrange(0, i + 1).last() == self.entries@[i as int]);
            }
            if addr_eq(self.entries[i].0.as_str(), addr.as_str()) {
                found = Some(self.entries[i].1);
            }
            i += 1;
        }
        proof {
            assert(self.entries@.subrange(0, self.entries@.len() as int) =~= self.entries@);
        }
        found
    }
}

} // verus!
