//! How keys and values are turned into the bytes that the stable map holds.

use vstd::prelude::*;
use ic_stable_structures::storable::Blob;
use crate::user::{UserData, UserDataView};

verus! {

/// Why a request to the store could not be answered.
#[derive(Debug, PartialEq, Eq, Clone, Copy, Structural)]
pub enum StoreError {
    /// The bytes stored for an owner could not be decoded into records.
    Corrupted,
}

/// The largest number of bytes a principal can have.
pub const MAX_PRINCIPAL_LEN: usize = 29;

/// The identity of an owner: the bytes of a principal, never more than
/// [`MAX_PRINCIPAL_LEN`] of them.
#[derive(Debug, PartialEq, Eq)]
pub struct StoredPrincipal {
    bytes: Vec<u8>,
}

impl View for StoredPrincipal {
    type V = Seq<u8>;

    closed spec fn view(&self) -> Seq<u8> {
        self.bytes@
    }
}

/// The bytes under which a principal is stored as a key: its own.
pub open spec fn encoded_key(principal: Seq<u8>) -> Seq<u8> {
    principal
}

/// The principal that key bytes stand for, or `None` where there are more
/// bytes than a principal can have.
pub open spec fn decoded_key(bytes: Seq<u8>) -> Option<Seq<u8>> {
    if bytes.len() <= MAX_PRINCIPAL_LEN {
        Some(bytes)
    } else {
        None
    }
}

/// The key codec loses nothing in either direction: a principal's encoding
/// decodes to the principal, and key bytes that decode are the encoding of
/// what they decode to.
pub proof fn lemma_key_round_trip(principal: Seq<u8>, bytes: Seq<u8>)
    ensures
        principal.len() <= MAX_PRINCIPAL_LEN ==> decoded_key(encoded_key(principal)) == Some(
            principal,
        ),
        decoded_key(bytes) matches Some(p) ==> encoded_key(p) == bytes,
{
}

/// `Blob::<29>::try_from(&[u8])`, from `ic_stable_structures`, and the bytes
/// of the blob it makes, read by `Blob::as_slice`. Trusted: packing succeeds
/// exactly for slices of at most 29 bytes, and the blob then holds the very
/// bytes it was given.
#[verifier::external_body]
fn blob_bytes(bytes: &[u8]) -> (packed: Option<Vec<u8>>)
    ensures
        packed is Some <==> bytes@.len() <= MAX_PRINCIPAL_LEN,
        packed matches Some(p) ==> p@ == bytes@,
{
    match Blob::<MAX_PRINCIPAL_LEN>::try_from(bytes) {
        Ok(blob) => Some(blob.as_slice().to_vec()),
        Err(_) => None,
    }
}

impl StoredPrincipal {
    #[verifier::type_invariant]
    spec fn within_bound(self) -> bool {
        self.bytes@.len() <= MAX_PRINCIPAL_LEN
    }

    /// Decodes a key: the principal with exactly these bytes. There are at
    /// most [`MAX_PRINCIPAL_LEN`] of them; see [`Self::try_from_bytes`] for
    /// bytes of any length.
    pub fn from_bytes(bytes: &[u8]) -> (principal: StoredPrincipal)
        requires
            bytes@.len() <= MAX_PRINCIPAL_LEN,
        ensures
            decoded_key(bytes@) == Some(principal@),
    {
        StoredPrincipal { bytes: blob_bytes(bytes).unwrap() }
    }

    /// Decodes a key of any length: the principal with exactly these bytes,
    /// or `None` when there are more than [`MAX_PRINCIPAL_LEN`] of them.
    pub fn try_from_bytes(bytes: &[u8]) -> (principal: Option<StoredPrincipal>)
        ensures
            match principal {
                Some(p) => decoded_key(bytes@) == Some(p@),
                None => decoded_key(bytes@).is_none(),
            },
    {
        if bytes.len() <= MAX_PRINCIPAL_LEN {
            Some(StoredPrincipal::from_bytes(bytes))
        } else {
            None
        }
    }

    /// Encodes the key: the principal's bytes, as the stable map stores them.
    pub fn to_bytes(&self) -> (bytes: Vec<u8>)
        ensures
            bytes@ == encoded_key(self@),
            decoded_key(bytes@) == Some(self@),
    {
        proof {
            use_type_invariant(self);
        }
        blob_bytes(self.bytes.as_slice()).unwrap()
    }

    /// The principal's bytes, borrowed.
    pub fn as_slice(&self) -> (bytes: &[u8])
        ensures
            bytes@ == self@,
            bytes@.len() <= MAX_PRINCIPAL_LEN,
    {
        proof {
            use_type_invariant(self);
        }
        self.bytes.as_slice()
    }
}

impl Clone for StoredPrincipal {
    fn clone(&self) -> (copy: StoredPrincipal)
        ensures
            copy@ == self@,
    {
        proof {
            use_type_invariant(self);
        }
        StoredPrincipal { bytes: self.bytes.clone() }
    }
}

/// A record as the codec sees it: name, email and picture, in that order.
pub type Row = (String, String, Option<Vec<u8>>);

/// The Candid bytes that `candid::encode_one` gives for a sequence of rows.
pub uninterp spec fn candid_encoding(rows: Seq<(Seq<char>, Seq<char>, Option<Seq<u8>>)>) -> Seq<u8>;

/// The rows that Candid bytes stand for: the rows that `candid::decode_one`
/// returns for them, asked for a sequence of rows, whenever it returns any.
pub uninterp spec fn candid_decoding(bytes: Seq<u8>) -> Option<Seq<(Seq<char>, Seq<char>, Option<Seq<u8>>)>>;

/// `candid::Error`, the error of the Candid decoder. Nothing is read from it.
#[verifier::external_type_specification]
#[verifier::external_body]
pub struct ExCandidError(candid::Error);

/// The bytes begin with the four bytes `DIDL` that open every Candid
/// message.
pub open spec fn has_candid_magic(bytes: Seq<u8>) -> bool {
    &&& bytes.len() >= 4
    &&& bytes[0] == 0x44
    &&& bytes[1] == 0x49
    &&& bytes[2] == 0x44
    &&& bytes[3] == 0x4c
}

/// `candid::encode_one`, on a vector of rows. Trusted: the bytes are a
/// function of the rows alone, they begin with the magic bytes `DIDL`, and
/// they stand for the rows: those are what `candid::decode_one` returns for
/// them when it returns any. For this row type the encoder only appends to a
/// vector and has no failing path.
#[verifier::external_body]
fn encode_rows(rows: &Vec<Row>) -> (bytes: Vec<u8>)
    ensures
        bytes@ == candid_encoding(rows.deep_view()),
        has_candid_magic(bytes@),
        candid_decoding(bytes@) == Some(rows.deep_view()),
{
    candid::encode_one(rows).expect("encoding should always succeed")
}

/// `candid::decode_one`, asked for a vector of rows. Trusted: the rows that
/// it returns are a function of the bytes alone. Nothing is claimed of an
/// error: the decoder reports one for bytes that are no encoding of rows, and
/// also, whatever the bytes, where the stack has little room left.
#[verifier::external_body]
fn decode_rows(bytes: &[u8]) -> (rows: Result<Vec<Row>, candid::Error>)
    ensures
        rows matches Ok(r) ==> candid_decoding(bytes@) == Some(r.deep_view()),
{
    candid::decode_one(bytes)
}

/// The row that stands for a record.
pub open spec fn row_of(record: UserDataView) -> (Seq<char>, Seq<char>, Option<Seq<u8>>) {
    (record.name, record.email, record.profile_pic)
}

/// The record that a row stands for.
pub open spec fn record_of(row: (Seq<char>, Seq<char>, Option<Seq<u8>>)) -> UserDataView {
    UserDataView { name: row.0, email: row.1, profile_pic: row.2 }
}

/// The bytes under which a sequence of records is stored.
pub open spec fn encoded(records: Seq<UserDataView>) -> Seq<u8> {
    candid_encoding(records.map_values(|r: UserDataView| row_of(r)))
}

/// The records that stored bytes stand for, or `None` where the bytes stand
/// for none.
pub open spec fn decoded(bytes: Seq<u8>) -> Option<Seq<UserDataView>> {
    match candid_decoding(bytes) {
        Some(rows) => Some(
            rows.map_values(|row: (Seq<char>, Seq<char>, Option<Seq<u8>>)| record_of(row)),
        ),
        None => None,
    }
}

/// Turning records into rows and back changes nothing.
pub proof fn lemma_rows_round_trip(records: Seq<UserDataView>)
    ensures
        records.map_values(|r: UserDataView| row_of(r)).map_values(
            |row: (Seq<char>, Seq<char>, Option<Seq<u8>>)| record_of(row),
        ) == records,
{
    let rows = records.map_values(|r: UserDataView| row_of(r));
    let back = rows.map_values(|row: (Seq<char>, Seq<char>, Option<Seq<u8>>)| record_of(row));
    assert(back =~= records);
}

/// The rows of a vector of records.
fn rows_of(records: &Vec<UserData>) -> (rows: Vec<Row>)
    ensures
        rows.deep_view() == records.deep_view().map_values(|r: UserDataView| row_of(r)),
{
    let mut rows: Vec<Row> = Vec::new();
    let mut i: usize = 0;
    while i < records.len()
        invariant
            i <= records.len(),
            rows.len() == i,
            forall|j: int| 0 <= j < i ==> rows[j].deep_view() == row_of(#[trigger] records[j]@),
        decreases records.len() - i,
    {
        let record = &records[i];
        let picture = match &record.profile_pic {
            Some(bytes) => Some(bytes.clone()),
            None => None,
        };
        rows.push((record.name.clone(), record.email.clone(), picture));
        i += 1;
    }
    assert(rows.deep_view() =~= records.deep_view().map_values(|r: UserDataView| row_of(r)));
    rows
}

/// The records that a vector of rows stands for.
fn records_of(rows: Vec<Row>) -> (records: Vec<UserData>)
    ensures
        records.deep_view() == rows.deep_view().map_values(
            |row: (Seq<char>, Seq<char>, Option<Seq<u8>>)| record_of(row),
        ),
{
    let mut records: Vec<UserData> = Vec::new();
    let ghost all = rows.deep_view();
    for row in iter: rows
        invariant
            records.len() == iter.index(),
            iter.seq().len() == all.len(),
            forall|j: int|
                0 <= j < iter.seq().len() ==> (#[trigger] iter.seq()[j]).deep_view() == all[j],
            forall|j: int| 0 <= j < records.len() ==> (#[trigger] records[j])@ == record_of(all[j]),
    {
        assert(row.deep_view() == all[iter.index() as int]);
        let (name, email, profile_pic) = row;
        assert(profile_pic matches Some(bytes) ==> bytes.deep_view() =~= bytes@);
        records.push(UserData { name, email, profile_pic });
    }
    assert(records.deep_view() =~= all.map_values(
        |row: (Seq<char>, Seq<char>, Option<Seq<u8>>)| record_of(row),
    ));
    records
}

/// A value together with its Candid encoding for the stable map.
pub struct Candid<T>(pub T);

impl<T> std::ops::Deref for Candid<T> {
    type Target = T;

    fn deref(&self) -> (inner: &T)
        ensures
            *inner == self.0,
    {
        &self.0
    }
}

impl Candid<Vec<UserData>> {
    /// Encodes the records. The bytes are never empty: they begin with the
    /// magic bytes of a Candid message. They stand for the same records, and
    /// encoding those gives the same bytes.
    pub fn to_bytes(&self) -> (bytes: Vec<u8>)
        ensures
            bytes@ == encoded(self.0.deep_view()),
            has_candid_magic(bytes@),
            decoded(bytes@) == Some(self.0.deep_view()),
            decoded(bytes@) matches Some(records) && encoded(records) == bytes@,
    {
        let rows = rows_of(&self.0);
        proof {
            lemma_rows_round_trip(self.0.deep_view());
        }
        encode_rows(&rows)
    }

    /// What an attempt to decode comes to: the records that the rows stand
    /// for, or [`StoreError::Corrupted`] where the decoder gave an error.
    pub fn from_decoded(rows: Result<Vec<Row>, candid::Error>) -> (value: Result<
        Candid<Vec<UserData>>,
        StoreError,
    >)
        ensures
            match rows {
                Ok(r) => value matches Ok(c) && c.0.deep_view() == r.deep_view().map_values(
                    |row: (Seq<char>, Seq<char>, Option<Seq<u8>>)| record_of(row),
                ),
                Err(_) => value matches Err(e) && e == StoreError::Corrupted,
            },
    {
        match rows {
            Ok(r) => Ok(Candid(records_of(r))),
            Err(_) => Err(StoreError::Corrupted),
        }
    }

    /// Decodes stored bytes. Where records come back, they are the records
    /// that the bytes stand for. The only error is
    /// [`StoreError::Corrupted`]; the decoder decides when it comes.
    pub fn from_bytes(bytes: &[u8]) -> (value: Result<Candid<Vec<UserData>>, StoreError>)
        ensures
            match value {
                Ok(c) => decoded(bytes@) == Some(c.0.deep_view()),
                Err(e) => e == StoreError::Corrupted,
            },
    {
        Candid::from_decoded(decode_rows(bytes))
    }
}

} // verus!
