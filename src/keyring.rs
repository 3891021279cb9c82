//! The keyring importer's own logic: decoding the base64 key blocks, and
//! planning where each decoded key is written in the trust store before the
//! keyring manager imports it. The primary credential must decode; another
//! key that does not is skipped and the rest are still planned.
use vstd::prelude::*;
use vstd::string::*;
use vstd::utf8::*;

verus! {

/// base64's decoding error, carried opaquely.
#[verifier::external_type_specification]
#[verifier::external_body]
pub struct ExDecodeError(base64::DecodeError);

/// std's error for bytes that are not UTF-8, carried opaquely.
#[verifier::external_type_specification]
#[verifier::external_body]
pub struct ExFromUtf8Error(std::string::FromUtf8Error);

/// The bytes that standard, padded base64 gives for a text, if it is valid.
pub uninterp spec fn base64_decoded(s: Seq<char>) -> Option<Seq<u8>>;

/// Relies on base64's `Engine::decode` with the `STANDARD` engine: its bytes,
/// or its failure, depend on the text alone.
#[verifier::external_body]
fn decode_base64(text: &str) -> (r: Result<Vec<u8>, base64::DecodeError>)
    ensures
        r is Err <==> base64_decoded(text@) is None,
        r matches Ok(b) ==> base64_decoded(text@) == Some(b@),
{
    base64::Engine::decode(&base64::engine::general_purpose::STANDARD, text)
}

/// Relies on `String::from_utf8`: it succeeds exactly on valid UTF-8, and the
/// text then holds the characters that the bytes encode.
#[verifier::external_body]
fn text_from_utf8(bytes: Vec<u8>) -> (r: Result<String, std::string::FromUtf8Error>)
    ensures
        r is Ok <==> valid_utf8(bytes@),
        r matches Ok(t) ==> t@ == decode_utf8(bytes@),
{
    String::from_utf8(bytes)
}

/// The decimal digits of a number, most significant first.
pub open spec fn decimal(n: nat) -> Seq<char>
    decreases n,
{
    if n < 10 {
        seq![digit_char(n)]
    } else {
        decimal(n / 10) + seq![digit_char(n % 10)]
    }
}

/// The character of a decimal digit.
pub open spec fn digit_char(d: nat) -> char {
    seq!['0', '1', '2', '3', '4', '5', '6', '7', '8', '9'][d as int]
}

/// Relies on `ToString` for `usize`, through its `Display`: the number's
/// decimal digits, with no sign or padding.
#[verifier::external_body]
fn decimal_text(n: usize) -> (r: String)
    ensures
        r@ == decimal(n as nat),
{
    n.to_string()
}

/// Why an encoded key could not be turned into key text.
#[derive(Clone, Copy, PartialEq, Eq, Structural, Debug)]
pub enum KeyDecodeError {
    /// The text is not valid standard base64.
    NotBase64,
    /// The decoded bytes are not UTF-8.
    NotUtf8,
}

/// A fatal failure of the primary credential.
#[derive(Debug)]
pub enum ImportError {
    /// The primary credential does not decode.
    PrimaryEncoding(KeyDecodeError),
    /// The keyring manager rejected the primary credential, with its message.
    PrimaryRejected(String),
}

/// The scoped keyring directory of this run.
pub struct TrustStore {
    pub home: String,
}

/// A decoded key and the file of the trust store that it is written to
/// before it is imported.
pub struct ImportJob {
    pub artifact: String,
    pub armored: String,
}

/// The plan for one non-primary key: import it, or skip it and say why.
pub enum KeyImport {
    Import(ImportJob),
    Skip(KeyDecodeError),
}

/// The key text held by decoded bytes.
pub open spec fn key_text_of(b: Seq<u8>) -> Result<Seq<char>, KeyDecodeError> {
    if valid_utf8(b) {
        Ok(decode_utf8(b))
    } else {
        Err(KeyDecodeError::NotUtf8)
    }
}

/// The key text held by a base64 key block.
pub open spec fn decoded_key(s: Seq<char>) -> Result<Seq<char>, KeyDecodeError> {
    match base64_decoded(s) {
        None => Err(KeyDecodeError::NotBase64),
        Some(b) => key_text_of(b),
    }
}

/// A decoding result, as a value.
pub open spec fn text_view(r: Result<String, KeyDecodeError>) -> Result<Seq<char>, KeyDecodeError> {
    match r {
        Ok(t) => Ok(t@),
        Err(e) => Err(e),
    }
}

/// Where the key at `index` of the list is written.
pub open spec fn key_artifact(home: Seq<char>, index: nat) -> Seq<char> {
    home + "/key_"@ + decimal(index) + ".asc"@
}

/// Where the primary credential is written.
pub open spec fn primary_artifact(home: Seq<char>) -> Seq<char> {
    home + "/private_key.asc"@
}

/// A plan entry as a value: the artifact path and the key text, or why the
/// key is skipped.
pub open spec fn import_view(k: KeyImport) -> Result<(Seq<char>, Seq<char>), KeyDecodeError> {
    match k {
        KeyImport::Import(job) => Ok((job.artifact@, job.armored@)),
        KeyImport::Skip(e) => Err(e),
    }
}

/// The plan entry for the key at `index`.
pub open spec fn planned_import(key: Seq<char>, home: Seq<char>, index: nat) -> Result<(Seq<char>, Seq<char>), KeyDecodeError> {
    match decoded_key(key) {
        Ok(t) => Ok((key_artifact(home, index), t)),
        Err(e) => Err(e),
    }
}

/// The plan for a whole key list: one entry per key, in order.
pub open spec fn import_plan(keys: Seq<Seq<char>>, home: Seq<char>) -> Seq<Result<(Seq<char>, Seq<char>), KeyDecodeError>> {
    keys.map(|i: int, k: Seq<char>| planned_import(k, home, i as nat))
}

/// Turns decoded bytes into key text: they must be UTF-8.
pub fn key_text(bytes: Vec<u8>) -> (r: Result<String, KeyDecodeError>)
    ensures
        text_view(r) == key_text_of(bytes@),
{
    match text_from_utf8(bytes) {
        Ok(t) => Ok(t),
        Err(_) => Err(KeyDecodeError::NotUtf8),
    }
}

/// Decodes a base64 key block into key text.
pub fn decode_key(encoded: &str) -> (r: Result<String, KeyDecodeError>)
    ensures
        text_view(r) == decoded_key(encoded@),
{
    match decode_base64(encoded) {
        Ok(bytes) => key_text(bytes),
        Err(_) => Err(KeyDecodeError::NotBase64),
    }
}

proof fn lemma_digit_char_injective(a: nat, b: nat)
    requires
        a < 10,
        b < 10,
        digit_char(a) == digit_char(b),
    ensures
        a == b,
{
    let digits = seq!['0', '1', '2', '3', '4', '5', '6', '7', '8', '9'];
    assert(digits[0] == '0' && digits[1] == '1' && digits[2] == '2' && digits[3] == '3' && digits[4] == '4');
    assert(digits[5] == '5' && digits[6] == '6' && digits[7] == '7' && digits[8] == '8' && digits[9] == '9');
}

proof fn lemma_decimal_len(n: nat)
    ensures
        decimal(n).len() >= 1,
        n >= 10 ==> decimal(n).len() >= 2,
    decreases n,
{
    if n >= 10 {
        lemma_decimal_len(n / 10);
    }
}

/// Distinct numbers have distinct decimal forms.
pub proof fn lemma_decimal_injective(a: nat, b: nat)
    requires
        decimal(a) == decimal(b),
    ensures
        a == b,
    decreases a,
{
    lemma_decimal_len(a);
    lemma_decimal_len(b);
    if a < 10 && b < 10 {
        assert(decimal(a)[0] == digit_char(a));
        assert(decimal(b)[0] == digit_char(b));
        lemma_digit_char_injective(a, b);
    } else if a >= 10 && b >= 10 {
        let (da, db) = (decimal(a), decimal(b));
        assert(da.last() == digit_char(a % 10));
        assert(db.last() == digit_char(b % 10));
        lemma_digit_char_injective(a % 10, b % 10);
        assert(da.drop_last() =~= decimal(a / 10));
        assert(db.drop_last() =~= decimal(b / 10));
        lemma_decimal_injective(a / 10, b / 10);
    }
}

/// Each key of the list has a file of its own in the trust store, and none
/// of them is the primary credential's file.
pub proof fn lemma_artifacts_are_unique(home: Seq<char>, i: nat, j: nat)
    ensures
        key_artifact(home, i) == key_artifact(home, j) ==> i == j,
        key_artifact(home, i) != primary_artifact(home),
{
    reveal_strlit("/key_");
    reveal_strlit(".asc");
    reveal_strlit("/private_key.asc");
    let h = home.len() as int;
    if key_artifact(home, i) == key_artifact(home, j) {
        let (a, b) = (key_artifact(home, i), key_artifact(home, j));
        assert("/key_"@.len() == 5 && ".asc"@.len() == 4);
        assert(a.len() == b.len());
        assert(decimal(i).len() == decimal(j).len());
        assert(a.subrange(h + 5, h + 5 + decimal(i).len()) =~= decimal(i));
        assert(b.subrange(h + 5, h + 5 + decimal(j).len()) =~= decimal(j));
        lemma_decimal_injective(i, j);
    }
    assert(key_artifact(home, i)[h + 1] == 'k');
    assert(primary_artifact(home)[h + 1] == 'p');
}

/// A key that cannot be decoded does not affect the plan of any other key:
/// changing the key at `i` leaves every other entry, and the number of
/// entries, as they were.
pub proof fn lemma_skipped_key_is_isolated(keys: Seq<Seq<char>>, home: Seq<char>, i: int, other: Seq<char>)
    requires
        0 <= i < keys.len(),
    ensures
        import_plan(keys.update(i, other), home).len() == keys.len(),
        forall|j: int|
            0 <= j < keys.len() && j != i ==> #[trigger] import_plan(keys.update(i, other), home)[j]
                == import_plan(keys, home)[j],
        decoded_key(other) is Err ==> import_plan(keys.update(i, other), home)[i] is Err,
{
}

/// The same key given twice is planned alike both times: the same key text
/// goes to two distinct files, or both copies are skipped for the same reason.
pub proof fn lemma_duplicate_keys_plan_alike(keys: Seq<Seq<char>>, home: Seq<char>, i: int, j: int)
    requires
        0 <= i < keys.len(),
        0 <= j < keys.len(),
        i != j,
        keys[i] == keys[j],
    ensures
        import_plan(keys, home)[i] is Ok <==> import_plan(keys, home)[j] is Ok,
        import_plan(keys, home)[i] matches Ok(p) ==> import_plan(keys, home)[j] matches Ok(q) && p.1 == q.1 && p.0 != q.0,
        import_plan(keys, home)[i] matches Err(e) ==> import_plan(keys, home)[j] == Err::<(Seq<char>, Seq<char>), KeyDecodeError>(e),
{
    lemma_artifacts_are_unique(home, i as nat, j as nat);
}

impl TrustStore {
    /// The file that the key at `index` of the list is written to.
    pub fn key_artifact_path(&self, index: usize) -> (r: String)
        ensures
            r@ == key_artifact(self.home@, index as nat),
    {
        let mut path = self.home.clone();
        path.append("/key_");
        let digits = decimal_text(index);
        path.append(digits.as_str());
        path.append(".asc");
        path
    }

    /// The file that the primary credential is written to.
    pub fn primary_artifact_path(&self) -> (r: String)
        ensures
            r@ == primary_artifact(self.home@),
    {
        let mut path = self.home.clone();
        path.append("/private_key.asc");
        path
    }

    /// Decodes the primary credential and says where it is written. Its
    /// failure to decode is fatal to the run.
    pub fn prepare_primary(&self, encoded: &str) -> (r: Result<ImportJob, ImportError>)
        ensures
            decoded_key(encoded@) matches Err(e) ==> r == Err::<ImportJob, ImportError>(ImportError::PrimaryEncoding(e)),
            decoded_key(encoded@) matches Ok(t) ==> (r matches Ok(job) && job.armored@ == t
                && job.artifact@ == primary_artifact(self.home@)),
    {
        match decode_key(encoded) {
            Ok(armored) => Ok(ImportJob { artifact: self.primary_artifact_path(), armored }),
            Err(e) => Err(ImportError::PrimaryEncoding(e)),
        }
    }

    /// Plans the import of every key of the list, in order: a key that
    /// decodes is written to its own file; one that does not is skipped,
    /// which stops none of the others.
    pub fn prepare_key_imports(&self, keys: &Vec<String>) -> (r: Vec<KeyImport>)
        ensures
            r@.map_values(|k: KeyImport| import_view(k)) == import_plan(
                keys@.map_values(|s: String| s@),
                self.home@,
            ),
    {
        let ghost texts = keys@.map_values(|s: String| s@);
        let mut plan: Vec<KeyImport> = Vec::new();
        let mut i: usize = 0;
        while i < keys.len()
            invariant
                i <= keys@.len(),
                texts == keys@.map_values(|s: String| s@),
                plan@.map_values(|k: KeyImport| import_view(k)) == import_plan(texts, self.home@).take(i as int),
            decreases keys@.len() - i,
        {
            let ghost prev = plan@;
            let entry = match decode_key(keys[i].as_str()) {
                Ok(armored) => KeyImport::Import(ImportJob { artifact: self.key_artifact_path(i), armored }),
                Err(e) => KeyImport::Skip(e),
            };
            plan.push(entry);
            assert(import_view(entry) == import_plan(texts, self.home@)[i as int]);
            assert(plan@.map_values(|k: KeyImport| import_view(k)) =~= prev.map_values(|k: KeyImport| import_view(k)).push(import_view(entry)));
            assert(plan@.map_values(|k: KeyImport| import_view(k)) =~= import_plan(texts, self.home@).take(i + 1));
            i += 1;
        }
        assert(import_plan(texts, self.home@).take(i as int) =~= import_plan(texts, self.home@));
        plan
    }
}

} // verus!
