//! The pre-shared-key credential store: parsing the line-oriented
//! secret file, looking an identity up, and selecting the credential
//! pair to present during the transport handshake.
//!
//! A credential file holds one `identity:hex_encoded_key` record per
//! line. A line is rejected when it has no separator, when the
//! identity is empty or longer than 23 bytes, when the key portion is
//! not hexadecimal, or when it decodes to an empty key; on a duplicate
//! identity the last line wins; and a file that yields no record at
//! all fails to load.

use vstd::prelude::*;

verus! {

/// Why a credential file failed to load.
#[derive(Clone, Copy, PartialEq, Eq, Structural, Debug)]
pub enum LoadError {
    /// A line holds no `:` separator.
    MissingSeparator,
    /// An identity is empty or longer than 23 bytes.
    IdentityInvalid,
    /// A key portion is not an even number of hexadecimal digits.
    KeyNotHex,
    /// A key portion decodes to an empty key.
    KeyEmpty,
    /// The file yields no record at all.
    NoRecords,
}

/// Why a credential could not be offered to the transport handshake.
#[derive(Clone, Copy, PartialEq, Eq, Structural, Debug)]
pub enum SelectError {
    /// The identity with its terminator, or the key, exceeds the
    /// destination capacity the server imposes. The credential is
    /// withheld rather than truncated.
    CredentialTooLarge,
}

/// One identity and its raw pre-shared key.
#[derive(Debug)]
pub struct Credential {
    pub identity: Vec<u8>,
    pub key: Vec<u8>,
}

/// The index of the first occurrence of a byte, if any.
pub open spec fn spec_find(s: Seq<u8>, b: u8) -> Option<int>
    decreases s.len(),
{
    if s.len() == 0 {
        None
    } else if s[0] == b {
        Some(0)
    } else {
        match spec_find(s.drop_first(), b) {
            Some(i) => Some(i + 1),
            None => None,
        }
    }
}

/// A line as the reader yields it: without a trailing carriage return.
pub open spec fn spec_strip_cr(l: Seq<u8>) -> Seq<u8> {
    if l.len() > 0 && l[l.len() - 1] == 13 {
        l.drop_last()
    } else {
        l
    }
}

/// The lines of a text, split on line feeds, each without a trailing
/// carriage return, and without a final empty piece after a closing
/// line feed.
pub open spec fn spec_split_lines(t: Seq<u8>) -> Seq<Seq<u8>>
    decreases t.len(),
{
    if t.len() == 0 {
        Seq::empty()
    } else {
        match spec_find(t, 10) {
            Some(i) => if 0 <= i < t.len() {
                seq![spec_strip_cr(t.subrange(0, i))] + spec_split_lines(
                    t.subrange(i + 1, t.len() as int),
                )
            } else {
                seq![spec_strip_cr(t)]
            },
            None => seq![spec_strip_cr(t)],
        }
    }
}

/// Whether a byte is an ASCII hexadecimal digit.
pub open spec fn spec_is_hex_digit(b: u8) -> bool {
    (0x30 <= b <= 0x39) || (0x41 <= b <= 0x46) || (0x61 <= b <= 0x66)
}

/// The value of a hexadecimal digit.
pub open spec fn spec_hex_val(b: u8) -> u8
    recommends
        spec_is_hex_digit(b),
{
    if 0x30 <= b <= 0x39 {
        (b - 0x30) as u8
    } else if 0x41 <= b <= 0x46 {
        (b - 0x41 + 10) as u8
    } else {
        (b - 0x61 + 10) as u8
    }
}

/// Whether a byte sequence is valid hexadecimal: an even number of
/// digits.
pub open spec fn spec_is_hex(s: Seq<u8>) -> bool {
    s.len() % 2 == 0 && forall|i: int| 0 <= i < s.len() ==> spec_is_hex_digit(#[trigger] s[i])
}

/// The bytes a hexadecimal sequence decodes to, one byte per digit
/// pair.
pub open spec fn spec_hex_decode(s: Seq<u8>) -> Seq<u8>
    decreases s.len(),
{
    if s.len() < 2 {
        Seq::empty()
    } else {
        seq![(spec_hex_val(s[0]) * 16 + spec_hex_val(s[1])) as u8] + spec_hex_decode(
            s.subrange(2, s.len() as int),
        )
    }
}

/// What one credential line yields: the identity before the first
/// separator and the decoded key after it, or the reason the line is
/// rejected.
pub open spec fn spec_parse_line(l: Seq<u8>) -> Result<(Seq<u8>, Seq<u8>), LoadError> {
    match spec_find(l, 58) {
        None => Err(LoadError::MissingSeparator),
        // a found index always lies in range; the guard only keeps
        // the definition total
        Some(i) => if !(0 <= i < l.len()) {
            Err(LoadError::MissingSeparator)
        } else {
            let id = l.subrange(0, i);
            let keypart = l.subrange(i + 1, l.len() as int);
            if id.len() < 1 || id.len() > 23 {
                Err(LoadError::IdentityInvalid)
            } else if !spec_is_hex(keypart) {
                Err(LoadError::KeyNotHex)
            } else if spec_hex_decode(keypart).len() == 0 {
                Err(LoadError::KeyEmpty)
            } else {
                Ok((id, spec_hex_decode(keypart)))
            }
        },
    }
}

/// A record added to the store: a new identity is appended, a known
/// one keeps its place and takes the new key, so the last line wins.
pub open spec fn spec_insert(
    acc: Seq<(Seq<u8>, Seq<u8>)>,
    id: Seq<u8>,
    key: Seq<u8>,
) -> Seq<(Seq<u8>, Seq<u8>)>
    decreases acc.len(),
{
    if acc.len() == 0 {
        seq![(id, key)]
    } else if acc[0].0 == id {
        seq![(id, key)] + acc.drop_first()
    } else {
        seq![acc[0]] + spec_insert(acc.drop_first(), id, key)
    }
}

/// The records of a list of lines folded into a store, or the first
/// line's rejection.
pub open spec fn spec_load_lines(
    lines: Seq<Seq<u8>>,
    acc: Seq<(Seq<u8>, Seq<u8>)>,
) -> Result<Seq<(Seq<u8>, Seq<u8>)>, LoadError>
    decreases lines.len(),
{
    if lines.len() == 0 {
        Ok(acc)
    } else {
        match spec_parse_line(lines[0]) {
            Err(e) => Err(e),
            Ok(p) => spec_load_lines(lines.drop_first(), spec_insert(acc, p.0, p.1)),
        }
    }
}

/// What loading a credential text yields: the records of its lines,
/// or the first rejection, or `NoRecords` where nothing was yielded.
pub open spec fn spec_load(t: Seq<u8>) -> Result<Seq<(Seq<u8>, Seq<u8>)>, LoadError> {
    match spec_load_lines(spec_split_lines(t), Seq::empty()) {
        Err(e) => Err(e),
        Ok(s) => if s.len() == 0 {
            Err(LoadError::NoRecords)
        } else {
            Ok(s)
        },
    }
}

/// The key of the first record carrying this identity, if any.
pub open spec fn spec_find_id(s: Seq<(Seq<u8>, Seq<u8>)>, id: Seq<u8>) -> Option<Seq<u8>>
    decreases s.len(),
{
    if s.len() == 0 {
        None
    } else if s[0].0 == id {
        Some(s[0].1)
    } else {
        spec_find_id(s.drop_first(), id)
    }
}

/// The hint bytes a server offered, if any, as a sequence.
pub open spec fn spec_hint(hint: Option<&[u8]>) -> Option<Seq<u8>> {
    match hint {
        None => None,
        Some(h) => Some(h@),
    }
}

/// The credential presented for a server's identity hint: the hinted
/// record where the hint names a known identity, the first record
/// otherwise.
pub open spec fn spec_select(s: Seq<(Seq<u8>, Seq<u8>)>, hint: Option<Seq<u8>>) -> (
    Seq<u8>,
    Seq<u8>,
)
    recommends
        s.len() >= 1,
{
    match hint {
        None => (s[0].0, s[0].1),
        Some(h) => match spec_find_id(s, h) {
            Some(k) => (h, k),
            None => (s[0].0, s[0].1),
        },
    }
}

/// The records a list of credentials stands for.
spec fn entries_view(s: Seq<Credential>) -> Seq<(Seq<u8>, Seq<u8>)> {
    s.map_values(|c: Credential| (c.identity@, c.key@))
}

/// The credential set: identity and key records in insertion order,
/// loaded once and immutable for the process lifetime.
#[derive(Debug)]
pub struct CredentialSet {
    entries: Vec<Credential>,
}

impl View for CredentialSet {
    type V = Seq<(Seq<u8>, Seq<u8>)>;

    closed spec fn view(&self) -> Seq<(Seq<u8>, Seq<u8>)> {
        entries_view(self.entries@)
    }
}

impl CredentialSet {
    /// Every loaded set holds at least one record, each identity is 1
    /// to 23 bytes and held once, and each key is non-empty.
    pub open spec fn wf(&self) -> bool {
        &&& self@.len() >= 1
        &&& forall|i: int|
            0 <= i < self@.len() ==> 1 <= (#[trigger] self@[i]).0.len() <= 23 && self@[i].1.len()
                >= 1
        &&& forall|i: int, j: int| 0 <= i < j < self@.len() ==> self@[i].0 != self@[j].0
    }

    /// How many identities the set holds.
    pub fn len(&self) -> (n: usize)
        ensures
            n == self@.len(),
    {
        self.entries.len()
    }

    /// The key stored for an identity, if any.
    pub fn get(&self, identity: &[u8]) -> (r: Option<&Vec<u8>>)
        ensures
            match spec_find_id(self@, identity@) {
                Some(k) => r matches Some(v) && v@ == k,
                None => r is None,
            },
    {
        let mut i: usize = 0;
        while i < self.entries.len()
            invariant
                i <= self.entries@.len(),
                forall|j: int| 0 <= j < i ==> (#[trigger] self@[j]).0 != identity@,
            decreases self.entries@.len() - i,
        {
            if bytes_eq(self.entries[i].identity.as_slice(), identity) {
                proof {
                    lemma_find_id_at(self@, identity@, i as int);
                }
                return Some(&self.entries[i].key);
            }
            i += 1;
        }
        proof {
            lemma_find_id_none(self@, identity@);
        }
        None
    }

    /// The credential pair to present for a server's identity hint:
    /// the hinted record where the hint names a known identity, the
    /// first record otherwise.
    pub fn select(&self, hint: Option<&[u8]>) -> (r: (&Vec<u8>, &Vec<u8>))
        requires
            self.wf(),
        ensures
            (r.0@, r.1@) == spec_select(self@, spec_hint(hint)),
    {
        match hint {
            Some(h) => {
                let mut i: usize = 0;
                while i < self.entries.len()
                    invariant
                        i <= self.entries@.len(),
                        spec_hint(hint) == Some(h@),
                        forall|j: int| 0 <= j < i ==> (#[trigger] self@[j]).0 != h@,
                    decreases self.entries@.len() - i,
                {
                    if bytes_eq(self.entries[i].identity.as_slice(), h) {
                        proof {
                            lemma_find_id_at(self@, h@, i as int);
                        }
                        return (&self.entries[i].identity, &self.entries[i].key);
                    }
                    i += 1;
                }
                proof {
                    lemma_find_id_none(self@, h@);
                }
                (&self.entries[0].identity, &self.entries[0].key)
            },
            None => (&self.entries[0].identity, &self.entries[0].key),
        }
    }

    /// The bytes to hand the transport handshake for a server's
    /// identity hint: the selected identity with its required
    /// terminator, and the selected key, checked against the
    /// destination capacities the server imposes. An oversized
    /// credential is refused outright, never truncated.
    pub fn psk_response(&self, hint: Option<&[u8]>, identity_cap: usize, key_cap: usize) -> (r:
        Result<(Vec<u8>, Vec<u8>), SelectError>)
        requires
            self.wf(),
        ensures
            ({
                let (id, key) = spec_select(self@, spec_hint(hint));
                if id.len() + 1 <= identity_cap && key.len() <= key_cap {
                    r matches Ok(p) && p.0@ == id + seq![0u8] && p.1@ == key
                } else {
                    r == Err::<(Vec<u8>, Vec<u8>), SelectError>(SelectError::CredentialTooLarge)
                }
            }),
    {
        let (identity, key) = self.select(hint);
        if identity.len() >= identity_cap || key.len() > key_cap {
            return Err(SelectError::CredentialTooLarge);
        }
        let mut id_out: Vec<u8> = Vec::new();
        id_out.extend_from_slice(identity.as_slice());
        id_out.push(0);
        let mut key_out: Vec<u8> = Vec::new();
        key_out.extend_from_slice(key.as_slice());
        Ok((id_out, key_out))
    }
}

/// Relies on hex::decode: it succeeds exactly on an even number of
/// hexadecimal digit bytes and yields one byte per digit pair, the
/// first digit in the high nibble.
#[verifier::external_body]
fn hex_decode(data: &[u8]) -> (r: Option<Vec<u8>>)
    ensures
        r matches Some(v) ==> spec_is_hex(data@) && v@ == spec_hex_decode(data@),
        r is None ==> !spec_is_hex(data@),
{
    hex::decode(data).ok()
}

/// Whether two byte strings hold the same bytes.
fn bytes_eq(a: &[u8], b: &[u8]) -> (r: bool)
    ensures
        r == (a@ == b@),
{
    if a.len() != b.len() {
        return false;
    }
    let mut i: usize = 0;
    while i < a.len()
        invariant
            i <= a@.len(),
            a@.len() == b@.len(),
            forall|j: int| 0 <= j < i ==> a@[j] == b@[j],
        decreases a@.len() - i,
    {
        if a[i] != b[i] {
            return false;
        }
        i += 1;
    }
    proof {
        assert(a@ =~= b@);
    }
    true
}

/// The index of the first occurrence of a byte, or nothing where the
/// byte does not occur.
fn find_byte(s: &[u8], b: u8) -> (r: Option<usize>)
    ensures
        r matches Some(i) ==> i < s@.len() && spec_find(s@, b) == Some(i as int),
        r is None ==> spec_find(s@, b) is None,
{
    let mut i: usize = 0;
    while i < s.len()
        invariant
            i <= s@.len(),
            forall|j: int| 0 <= j < i ==> s@[j] != b,
        decreases s@.len() - i,
    {
        if s[i] == b {
            proof {
                lemma_find_at(s@, b, i as int);
            }
            return Some(i);
        }
        i += 1;
    }
    proof {
        lemma_find_none(s@, b);
    }
    None
}

/// A byte's first occurrence is found exactly where every earlier
/// position misses it.
proof fn lemma_find_at(s: Seq<u8>, b: u8, i: int)
    requires
        0 <= i < s.len(),
        s[i] == b,
        forall|j: int| 0 <= j < i ==> s[j] != b,
    ensures
        spec_find(s, b) == Some(i),
    decreases s.len(),
{
    if i > 0 {
        lemma_find_at(s.drop_first(), b, i - 1);
    }
}

/// A byte that occurs nowhere is not found.
proof fn lemma_find_none(s: Seq<u8>, b: u8)
    requires
        forall|j: int| 0 <= j < s.len() ==> s[j] != b,
    ensures
        spec_find(s, b) is None,
    decreases s.len(),
{
    if s.len() > 0 {
        lemma_find_none(s.drop_first(), b);
    }
}

/// An identity's first record is found exactly where every earlier
/// record carries another identity.
proof fn lemma_find_id_at(s: Seq<(Seq<u8>, Seq<u8>)>, id: Seq<u8>, i: int)
    requires
        0 <= i < s.len(),
        s[i].0 == id,
        forall|j: int| 0 <= j < i ==> (#[trigger] s[j]).0 != id,
    ensures
        spec_find_id(s, id) == Some(s[i].1),
    decreases s.len(),
{
    if i > 0 {
        lemma_find_id_at(s.drop_first(), id, i - 1);
    }
}

/// An identity no record carries is not found.
proof fn lemma_find_id_none(s: Seq<(Seq<u8>, Seq<u8>)>, id: Seq<u8>)
    requires
        forall|j: int| 0 <= j < s.len() ==> (#[trigger] s[j]).0 != id,
    ensures
        spec_find_id(s, id) is None,
    decreases s.len(),
{
    if s.len() > 0 {
        lemma_find_id_none(s.drop_first(), id);
    }
}

/// Inserting an unknown identity appends its record.
proof fn lemma_insert_absent(acc: Seq<(Seq<u8>, Seq<u8>)>, id: Seq<u8>, key: Seq<u8>)
    requires
        forall|i: int| 0 <= i < acc.len() ==> (#[trigger] acc[i]).0 != id,
    ensures
        spec_insert(acc, id, key) == acc.push((id, key)),
    decreases acc.len(),
{
    if acc.len() == 0 {
        assert(spec_insert(acc, id, key) =~= acc.push((id, key)));
    } else {
        lemma_insert_absent(acc.drop_first(), id, key);
        assert(spec_insert(acc, id, key) =~= acc.push((id, key)));
    }
}

/// Inserting a known identity replaces the key of its first record in
/// place.
proof fn lemma_insert_present(acc: Seq<(Seq<u8>, Seq<u8>)>, id: Seq<u8>, key: Seq<u8>, i: int)
    requires
        0 <= i < acc.len(),
        acc[i].0 == id,
        forall|j: int| 0 <= j < i ==> (#[trigger] acc[j]).0 != id,
    ensures
        spec_insert(acc, id, key) == acc.update(i, (id, key)),
    decreases acc.len(),
{
    if i == 0 {
        assert(spec_insert(acc, id, key) =~= acc.update(0, (id, key)));
    } else {
        lemma_insert_present(acc.drop_first(), id, key, i - 1);
        assert(spec_insert(acc, id, key) =~= acc.update(i, (id, key)));
    }
}

/// Parses one credential line into its record.
fn parse_line(line: &[u8]) -> (r: Result<Credential, LoadError>)
    ensures
        r matches Ok(c) ==> spec_parse_line(line@) == Ok::<(Seq<u8>, Seq<u8>), LoadError>(
            (c.identity@, c.key@),
        ) && 1 <= c.identity@.len() <= 23 && c.key@.len() >= 1,
        r matches Err(e) ==> spec_parse_line(line@) == Err::<(Seq<u8>, Seq<u8>), LoadError>(e),
{
    let sep: usize = match find_byte(line, 58) {
        Some(i) => i,
        None => {
            return Err(LoadError::MissingSeparator);
        },
    };
    let identity: Vec<u8> = vstd::slice::slice_to_vec(vstd::slice::slice_subrange(line, 0, sep));
    if identity.len() < 1 || identity.len() > 23 {
        return Err(LoadError::IdentityInvalid);
    }
    let keypart: &[u8] = vstd::slice::slice_subrange(line, sep + 1, line.len());
    let key: Vec<u8> = match hex_decode(keypart) {
        Some(v) => v,
        None => {
            return Err(LoadError::KeyNotHex);
        },
    };
    if key.len() == 0 {
        return Err(LoadError::KeyEmpty);
    }
    Ok(Credential { identity, key })
}

/// The position of the first record carrying this identity, if any.
fn find_credential(entries: &Vec<Credential>, id: &[u8]) -> (r: Option<usize>)
    ensures
        r matches Some(k) ==> k < entries@.len() && entries@[k as int].identity@ == id@ && forall|
            j: int,
        | 0 <= j < k ==> (#[trigger] entries@[j]).identity@ != id@,
        r is None ==> forall|j: int|
            0 <= j < entries@.len() ==> (#[trigger] entries@[j]).identity@ != id@,
{
    let mut k: usize = 0;
    while k < entries.len()
        invariant
            k <= entries@.len(),
            forall|j: int| 0 <= j < k ==> (#[trigger] entries@[j]).identity@ != id@,
        decreases entries@.len() - k,
    {
        if bytes_eq(entries[k].identity.as_slice(), id) {
            return Some(k);
        }
        k += 1;
    }
    None
}

/// Loads a credential text into a set.
///
/// Succeeds exactly when every line parses and at least one record is
/// yielded; the set then holds the records of the lines in first
/// appearance order, the last line winning a duplicate identity.
pub fn load(text: &[u8]) -> (r: Result<CredentialSet, LoadError>)
    ensures
        spec_load(text@) matches Ok(s) ==> (r matches Ok(cs) && cs@ == s && cs.wf()),
        spec_load(text@) matches Err(e) ==> r == Err::<CredentialSet, LoadError>(e),
{
    let ghost all_lines = spec_split_lines(text@);
    let mut entries: Vec<Credential> = Vec::new();
    let mut start: usize = 0;
    proof {
        assert(text@.subrange(0, text@.len() as int) =~= text@);
        assert(entries_view(entries@) =~= Seq::<
            (Seq<u8>, Seq<u8>),
        >::empty());
    }
    while start < text.len()
        invariant
            start <= text@.len(),
            all_lines == spec_split_lines(text@),
            spec_load_lines(all_lines, Seq::empty()) == spec_load_lines(
                spec_split_lines(text@.subrange(start as int, text@.len() as int)),
                entries_view(entries@),
            ),
            forall|i: int|
                0 <= i < entries@.len() ==> 1 <= (#[trigger] entries@[i]).identity@.len() <= 23
                    && entries@[i].key@.len() >= 1,
            forall|i: int, j: int|
                0 <= i < j < entries@.len() ==> entries@[i].identity@ != entries@[j].identity@,
        decreases text@.len() - start,
    {
        let rest: &[u8] = vstd::slice::slice_subrange(text, start, text.len());
        let ghost rest_lines = spec_split_lines(rest@);
        let line: &[u8];
        let next: usize;
        match find_byte(rest, 10) {
            Some(i) => {
                line = vstd::slice::slice_subrange(rest, 0, i);
                next = start + i + 1;
                proof {
                    assert(text@.subrange(next as int, text@.len() as int) =~= rest@.subrange(
                        i + 1,
                        rest@.len() as int,
                    ));
                }
            },
            None => {
                line = rest;
                next = text.len();
                proof {
                    assert(text@.subrange(next as int, text@.len() as int) =~= Seq::<u8>::empty());
                }
            },
        }
        // the reader strips a carriage return before the line feed
        let stripped: &[u8] = if line.len() > 0 && line[line.len() - 1] == 13 {
            vstd::slice::slice_subrange(line, 0, line.len() - 1)
        } else {
            line
        };
        proof {
            assert(stripped@ =~= spec_strip_cr(line@));
            assert(rest_lines =~= seq![stripped@] + spec_split_lines(
                text@.subrange(next as int, text@.len() as int),
            ));
            assert(rest_lines.drop_first() =~= spec_split_lines(
                text@.subrange(next as int, text@.len() as int),
            ));
        }
        match parse_line(stripped) {
            Err(e) => {
                proof {
                    let view = entries_view(entries@);
                    assert(rest_lines[0] == stripped@);
                    assert(spec_load_lines(rest_lines, view) == Err::<
                        Seq<(Seq<u8>, Seq<u8>)>,
                        LoadError,
                    >(e));
                    assert(spec_load(text@) == Err::<Seq<(Seq<u8>, Seq<u8>)>, LoadError>(e));
                }
                return Err(e);
            },
            Ok(c) => {
                let ghost old_view = entries_view(entries@);
                let ghost inserted = spec_insert(old_view, c.identity@, c.key@);
                // replace the first record with this identity, append otherwise
                match find_credential(&entries, c.identity.as_slice()) {
                    Some(k) => {
                        proof {
                            lemma_insert_present(old_view, c.identity@, c.key@, k as int);
                        }
                        *vstd::std_specs::vec::vec_index_mut(&mut entries, k) = c;
                    },
                    None => {
                        proof {
                            lemma_insert_absent(old_view, c.identity@, c.key@);
                        }
                        entries.push(c);
                    },
                }
                proof {
                    assert(entries_view(entries@)
                        =~= inserted);
                }
                start = next;
            },
        }
    }
    proof {
        assert(spec_split_lines(text@.subrange(start as int, text@.len() as int)) =~= Seq::<
            Seq<u8>,
        >::empty());
    }
    if entries.len() == 0 {
        return Err(LoadError::NoRecords);
    }
    Ok(CredentialSet { entries })
}

} // verus!
