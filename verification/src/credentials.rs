//! Secret storage is separate from preferences and task records.
use crate::json::{json_texts, names_differ, parse_texts, text_map, write_texts};
use crate::table::{places_are_few, Table};
use crate::text::{
    begins, blank, chars_of, decimal, decimal_is_injective, is_blank, join2, matches_at, number, string_of,
};
use vstd::prelude::*;
use vstd::string::*;

verus! {

// -------------------------------------------------------------------- secrets

/// A text that is overwritten in memory when it is dropped: a
/// `zeroize::Zeroizing<String>`.
#[verifier::external_body]
pub struct Sealed {
    text: zeroize::Zeroizing<String>,
}

/// The text under a seal.
pub uninterp spec fn sealed_text(value: Sealed) -> Seq<char>;

/// `zeroize::Zeroizing::new`: keeps the text it is given.
#[verifier::external_body]
fn seal(text: String) -> (result: Sealed)
    ensures
        sealed_text(result) == text@,
{
    Sealed { text: zeroize::Zeroizing::new(text) }
}

/// `zeroize::Zeroizing`'s `Deref`: lends the text that it keeps.
#[verifier::external_body]
fn unseal(value: &Sealed) -> (result: &str)
    ensures
        result@ == sealed_text(*value),
{
    value.text.as_str()
}

/// A secret. It can be neither serialized nor printed by accident.
pub struct Secret(Sealed);

impl Secret {
    pub closed spec fn text(self) -> Seq<char> {
        sealed_text(self.0)
    }

    pub fn new(value: &str) -> (result: Secret)
        ensures
            result.text() == value@,
    {
        Secret(seal(value.to_owned()))
    }

    pub fn expose(&self) -> (result: &str)
        ensures
            result@ == self.text(),
    {
        unseal(&self.0)
    }

    /// Whether there is nothing but white space.
    pub fn is_empty(&self) -> (result: bool)
        ensures
            result == is_blank(self.text()),
    {
        blank(self.expose())
    }

    /// What a log may say of a secret.
    pub fn redacted(&self) -> (result: &'static str)
        ensures
            result@ == "Secret([REDACTED])"@,
    {
        "Secret([REDACTED])"
    }
}

// ----------------------------------------------------------------- references

pub open spec fn is_hex(c: char) -> bool {
    ('0' <= c && c <= '9') || ('a' <= c && c <= 'f') || ('A' <= c && c <= 'F')
}

/// Thirty-two hexadecimal digits.
pub open spec fn is_simple_uuid(s: Seq<char>) -> bool {
    s.len() == 32 && forall|i: int| 0 <= i < 32 ==> is_hex(#[trigger] s[i])
}

/// Hexadecimal digits in groups of eight, four, four, four and twelve.
pub open spec fn is_hyphenated_uuid(s: Seq<char>) -> bool {
    s.len() == 36 && forall|i: int|
        0 <= i < 36 ==> if i == 8 || i == 13 || i == 18 || i == 23 {
            #[trigger] s[i] == '-'
        } else {
            is_hex(s[i])
        }
}

/// `urn:uuid:` in any case.
pub open spec fn is_urn_prefix(s: Seq<char>) -> bool {
    &&& s.len() == 9
    &&& s[0] == 'u' || s[0] == 'U'
    &&& s[1] == 'r' || s[1] == 'R'
    &&& s[2] == 'n' || s[2] == 'N'
    &&& s[3] == ':'
    &&& s[4] == 'u' || s[4] == 'U'
    &&& s[5] == 'u' || s[5] == 'U'
    &&& s[6] == 'i' || s[6] == 'I'
    &&& s[7] == 'd' || s[7] == 'D'
    &&& s[8] == ':'
}

/// The spellings of a UUID: plain, with hyphens, in braces, or as a URN.
pub open spec fn is_uuid(s: Seq<char>) -> bool {
    ||| is_simple_uuid(s)
    ||| is_hyphenated_uuid(s)
    ||| s.len() == 38 && s[0] == '{' && s[37] == '}' && is_hyphenated_uuid(s.subrange(1, 37))
    ||| s.len() == 45 && is_urn_prefix(s.take(9)) && is_hyphenated_uuid(s.skip(9))
}

/// `uuid::Uuid::parse_str`: succeeds on the four spellings of a UUID and on nothing
/// else.
#[verifier::external_body]
fn parses_as_uuid(text: &str) -> (result: bool)
    ensures
        result == is_uuid(text@),
{
    uuid::Uuid::parse_str(text).is_ok()
}

/// `uuid::Uuid::new_v4`, written by its `Display`: a random UUID with hyphens.
#[verifier::external_body]
fn random_uuid() -> (result: String)
    ensures
        is_hyphenated_uuid(result@),
{
    uuid::Uuid::new_v4().to_string()
}

/// The form of a reference to a credential.
pub open spec fn is_reference(s: Seq<char>) -> bool {
    begins(s, "credential-"@) && is_uuid(s.skip("credential-"@.len() as int))
}

/// A reference that was not used before, as far as chance goes.
fn new_reference() -> (result: String)
    ensures
        is_reference(result@),
{
    let id = random_uuid();
    let result = join2("credential-", id.as_str());
    proof {
        let head = "credential-"@;
        assert(result@.subrange(0, head.len() as int) =~= head);
        assert(result@.skip(head.len() as int) =~= id@);
    }
    result
}

/// Thirty-two characters that begin with a number and end with letters.
pub open spec fn padded(n: nat) -> Seq<char> {
    let digits = decimal(n);
    digits + Seq::new((32 - digits.len()) as nat, |i: int| 'a')
}

/// The reference that is tried as the `n`th where chance has given one in use.
pub open spec fn reference_number(n: nat) -> Seq<char> {
    "credential-"@ + padded(n)
}

spec fn power_of_ten(k: nat) -> nat
    decreases k,
{
    if k == 0 {
        1
    } else {
        10 * power_of_ten((k - 1) as nat)
    }
}

proof fn decimal_is_short(n: nat, k: nat)
    requires
        n < power_of_ten(k),
        k >= 1,
    ensures
        1 <= decimal(n).len() <= k,
        forall|i: int| 0 <= i < decimal(n).len() ==> '0' <= #[trigger] decimal(n)[i] <= '9',
    decreases k,
{
    if n >= 10 {
        assert(k > 1) by {
            reveal_with_fuel(power_of_ten, 2);
        }
        decimal_is_short(n / 10, (k - 1) as nat);
        let before = decimal(n / 10);
        assert forall|i: int| 0 <= i < decimal(n).len() implies '0' <= #[trigger] decimal(n)[i]
            <= '9' by {
            if i < before.len() {
                assert(decimal(n)[i] == before[i]);
            }
        }
    }
}

proof fn padded_is_uuid(n: nat)
    requires
        n <= u64::MAX,
    ensures
        1 <= decimal(n).len() <= 20,
        forall|i: int| 0 <= i < decimal(n).len() ==> '0' <= #[trigger] decimal(n)[i] <= '9',
        is_simple_uuid(padded(n)),
        is_reference(reference_number(n)),
{
    reveal_with_fuel(power_of_ten, 21);
    decimal_is_short(n, 20);
    let own = padded(n);
    assert forall|i: int| 0 <= i < 32 implies is_hex(#[trigger] own[i]) by {
        if i < decimal(n).len() {
            assert(own[i] == decimal(n)[i]);
        }
    }
    let head = "credential-"@;
    assert(reference_number(n).subrange(0, head.len() as int) =~= head);
    assert(reference_number(n).skip(head.len() as int) =~= own);
}

proof fn reference_numbers_differ(a: nat, b: nat)
    requires
        a <= u64::MAX,
        b <= u64::MAX,
        reference_number(a) == reference_number(b),
    ensures
        a == b,
{
    padded_is_uuid(a);
    padded_is_uuid(b);
    let head = "credential-"@;
    assert(reference_number(a).skip(head.len() as int) =~= padded(a));
    assert(reference_number(b).skip(head.len() as int) =~= padded(b));
    let (x, y) = (decimal(a), decimal(b));
    if x.len() < y.len() {
        assert(padded(a)[x.len() as int] == 'a');
        assert(padded(b)[x.len() as int] == y[x.len() as int]);
    } else if y.len() < x.len() {
        assert(padded(b)[y.len() as int] == 'a');
        assert(padded(a)[y.len() as int] == x[y.len() as int]);
    } else {
        assert(padded(a).take(x.len() as int) =~= x);
        assert(padded(b).take(x.len() as int) =~= y);
        decimal_is_injective(a, b);
    }
}

fn numbered_reference(n: u64) -> (result: String)
    ensures
        result@ == reference_number(n as nat),
        is_reference(result@),
{
    let mut text = number(n);
    proof {
        padded_is_uuid(n as nat);
    }
    let mut length: usize = chars_of(text.as_str()).len();
    let ghost digits = text@;
    assert(text@ =~= digits + Seq::new(0, |i: int| 'a'));
    while length < 32
        invariant
            length == text@.len(),
            1 <= digits.len() <= length <= 32,
            text@ == digits + Seq::new((length - digits.len()) as nat, |i: int| 'a'),
        decreases 32 - length,
    {
        text.push('a');
        length += 1;
        assert(text@ =~= digits + Seq::new((length - digits.len()) as nat, |i: int| 'a'));
    }
    join2("credential-", text.as_str())
}

/// Whether a text has the form of a reference.
pub fn validate_reference(reference: &str) -> (result: bool)
    ensures
        result == is_reference(reference@),
{
    let chars = chars_of(reference);
    let prefix = chars_of("credential-");
    if !matches_at(&chars, &prefix, 0) {
        return false;
    }
    let id = string_of(&chars, prefix.len(), chars.len());
    assert(chars@.subrange(prefix@.len() as int, chars@.len() as int) =~= chars@.skip(
        prefix@.len() as int,
    ));
    parses_as_uuid(id.as_str())
}

// --------------------------------------------------------------------- errors

/// Why a credential was not stored, found or removed.
#[derive(Clone, Debug, PartialEq, Eq)]
pub enum CredentialError {
    Empty,
    InvalidReference,
    NotFound,
    NotInKeychain,
    KeychainWrite(i32),
    KeychainRead(i32),
    KeychainRemove(i32),
    Unreadable,
}

/// A number with its sign, in decimal.
pub open spec fn signed(n: int) -> Seq<char> {
    if n < 0 {
        "-"@ + decimal((-n) as nat)
    } else {
        decimal(n as nat)
    }
}

fn signed_number(n: i32) -> (result: String)
    ensures
        result@ == signed(n as int),
{
    if n < 0 {
        let size: i64 = -(n as i64);
        join2("-", number(size as u64).as_str())
    } else {
        number(n as u64)
    }
}

/// What a person is told; never a secret, nor the reference that was asked for.
pub open spec fn error_text(error: CredentialError) -> Seq<char> {
    match error {
        CredentialError::Empty => "请输入 API Key"@,
        CredentialError::InvalidReference => "凭据引用无效，请为此服务重新保存 API Key"@,
        CredentialError::NotFound => "找不到此服务的凭据，请重新保存 API Key"@,
        CredentialError::NotInKeychain => "钥匙串中找不到此服务的凭据，请重新保存 API Key"@,
        CredentialError::KeychainWrite(code) => "无法将 API Key 保存到钥匙串（系统代码 "@ + signed(
            code as int,
        ) + "）"@,
        CredentialError::KeychainRead(code) => "暂时无法读取此服务的钥匙串凭据（系统代码 "@ + signed(
            code as int,
        ) + "）"@,
        CredentialError::KeychainRemove(code) => "无法移除此服务的钥匙串凭据（系统代码 "@ + signed(
            code as int,
        ) + "）"@,
        CredentialError::Unreadable => "此服务的凭据无法读取，请重新保存 API Key"@,
    }
}

fn with_code(head: &str, code: i32) -> (result: String)
    ensures
        result@ == head@ + signed(code as int) + "）"@,
{
    let mut result = head.to_owned();
    result.append(signed_number(code).as_str());
    result.append("）");
    result
}

impl CredentialError {
    pub fn message(&self) -> (result: String)
        ensures
            result@ == error_text(*self),
    {
        match self {
            CredentialError::Empty => "请输入 API Key".to_owned(),
            CredentialError::InvalidReference => "凭据引用无效，请为此服务重新保存 API Key".to_owned(),
            CredentialError::NotFound => "找不到此服务的凭据，请重新保存 API Key".to_owned(),
            CredentialError::NotInKeychain => {
                "钥匙串中找不到此服务的凭据，请重新保存 API Key".to_owned()
            },
            CredentialError::KeychainWrite(code) => with_code(
                "无法将 API Key 保存到钥匙串（系统代码 ",
                *code,
            ),
            CredentialError::KeychainRead(code) => with_code(
                "暂时无法读取此服务的钥匙串凭据（系统代码 ",
                *code,
            ),
            CredentialError::KeychainRemove(code) => with_code(
                "无法移除此服务的钥匙串凭据（系统代码 ",
                *code,
            ),
            CredentialError::Unreadable => "此服务的凭据无法读取，请重新保存 API Key".to_owned(),
        }
    }
}

// --------------------------------------------------------------------- vaults

/// A store of secrets. Inserting always makes a new reference, so that changing a
/// service cannot change the credential of a task that is already queued.
pub trait CredentialVault: Sized {
    spec fn wf(&self) -> bool;

    /// The secret behind each reference.
    spec fn secrets(&self) -> Map<Seq<char>, Seq<char>>;

    fn insert(&mut self, secret: Secret) -> (result: Result<String, CredentialError>)
        requires
            old(self).wf(),
        ensures
            final(self).wf(),
            is_blank(secret.text()) ==> result == Err::<String, _>(CredentialError::Empty)
                && final(self).secrets() == old(self).secrets(),
            !is_blank(secret.text()) ==> (result matches Ok(reference) && is_reference(reference@)
                && !old(self).secrets().contains_key(reference@) && final(self).secrets() == old(
                self,
            ).secrets().insert(reference@, secret.text())),
    ;

    fn resolve(&self, reference: &str) -> (result: Result<Secret, CredentialError>)
        requires
            self.wf(),
        ensures
            match result {
                Ok(secret) => is_reference(reference@) && self.secrets().contains_key(reference@)
                    && secret.text() == self.secrets()[reference@],
                Err(error) => if is_reference(reference@) {
                    error is NotFound && !self.secrets().contains_key(reference@)
                } else {
                    error is InvalidReference
                },
            },
    ;

    fn remove(&mut self, reference: &str) -> (result: Result<Option<Secret>, CredentialError>)
        requires
            old(self).wf(),
        ensures
            final(self).wf(),
            !is_reference(reference@) ==> result is Err && result->Err_0 is InvalidReference
                && final(self).secrets() == old(self).secrets(),
            is_reference(reference@) ==> final(self).secrets() == old(self).secrets().remove(
                reference@,
            ) && (match result {
                Ok(Some(secret)) => old(self).secrets().contains_key(reference@) && secret.text()
                    == old(self).secrets()[reference@],
                Ok(None) => !old(self).secrets().contains_key(reference@),
                Err(_) => false,
            }),
    ;
}

/// Secrets by their references.
pub struct Credentials {
    values: Table<String, Sealed>,
}

impl Credentials {
    pub closed spec fn valid(self) -> bool {
        self.values.wf()
    }

    pub closed spec fn texts(self) -> Map<Seq<char>, Seq<char>> {
        Map::new(
            |reference: Seq<char>| self.values.map().contains_key(reference),
            |reference: Seq<char>| sealed_text(self.values.map()[reference]),
        )
    }

    pub fn new() -> (result: Credentials)
        ensures
            result.valid(),
            result.texts() == Map::<Seq<char>, Seq<char>>::empty(),
    {
        let result = Credentials { values: Table::new() };
        assert(result.texts() =~= Map::<Seq<char>, Seq<char>>::empty());
        result
    }

    /// Keeps a secret under a given reference.
    pub fn insert_as(&mut self, reference: String, secret: Secret)
        requires
            old(self).valid(),
        ensures
            final(self).valid(),
            final(self).texts() == old(self).texts().insert(reference@, secret.text()),
    {
        let ghost name = reference@;
        let ghost text = secret.text();
        self.values.insert(reference, secret.0);
        assert(self.texts() =~= old(self).texts().insert(name, text));
    }

    /// Keeps a secret under a new reference.
    pub fn insert(&mut self, secret: Secret) -> (result: Result<String, CredentialError>)
        requires
            old(self).valid(),
        ensures
            final(self).valid(),
            is_blank(secret.text()) ==> result == Err::<String, _>(CredentialError::Empty)
                && final(self).texts() == old(self).texts(),
            !is_blank(secret.text()) ==> (result matches Ok(reference) && is_reference(reference@)
                && !old(self).texts().contains_key(reference@) && final(self).texts() == old(
                self,
            ).texts().insert(reference@, secret.text())),
    {
        if secret.is_empty() {
            return Err(CredentialError::Empty);
        }
        let mut reference = new_reference();
        if self.values.contains(&reference) {
            reference = self.free_reference();
        }
        self.insert_as(reference.clone(), secret);
        Ok(reference)
    }

    /// A reference that is not in use, where chance has given one that is.
    fn free_reference(&self) -> (result: String)
        requires
            self.valid(),
        ensures
            is_reference(result@),
            !self.texts().contains_key(result@),
    {
        let total: usize = self.values.entries.len();
        let mut n: u64 = 0;
        let mut candidate = numbered_reference(0);
        while self.values.contains(&candidate)
            invariant
                self.valid(),
                total == self.values.entries@.len(),
                n <= total,
                candidate@ == reference_number(n as nat),
                is_reference(candidate@),
                forall|k: nat| k < n ==> self.values.has(#[trigger] reference_number(k)),
            decreases total - n,
        {
            proof {
                references_are_few(self.values, n as nat);
            }
            n += 1;
            candidate = numbered_reference(n);
        }
        candidate
    }

    pub fn resolve(&self, reference: &str) -> (result: Result<Secret, CredentialError>)
        requires
            self.valid(),
        ensures
            match result {
                Ok(secret) => is_reference(reference@) && self.texts().contains_key(reference@)
                    && secret.text() == self.texts()[reference@],
                Err(error) => if is_reference(reference@) {
                    error is NotFound && !self.texts().contains_key(reference@)
                } else {
                    error is InvalidReference
                },
            },
    {
        if !validate_reference(reference) {
            return Err(CredentialError::InvalidReference);
        }
        match self.values.get(&reference.to_owned()) {
            Some(value) => Ok(Secret::new(unseal(value))),
            None => Err(CredentialError::NotFound),
        }
    }

    pub fn remove(&mut self, reference: &str) -> (result: Result<Option<Secret>, CredentialError>)
        requires
            old(self).valid(),
        ensures
            final(self).valid(),
            !is_reference(reference@) ==> result is Err && result->Err_0 is InvalidReference
                && final(self).texts() == old(self).texts(),
            is_reference(reference@) ==> final(self).texts() == old(self).texts().remove(
                reference@,
            ) && (match result {
                Ok(Some(secret)) => old(self).texts().contains_key(reference@) && secret.text()
                    == old(self).texts()[reference@],
                Ok(None) => !old(self).texts().contains_key(reference@),
                Err(_) => false,
            }),
    {
        if !validate_reference(reference) {
            return Err(CredentialError::InvalidReference);
        }
        let removed = self.values.remove(&reference.to_owned());
        assert(self.texts() =~= old(self).texts().remove(reference@));
        match removed {
            Some(value) => Ok(Some(Secret(value))),
            None => Ok(None),
        }
    }

    /// The secrets by their references, to be written.
    fn plain(&self) -> (result: Vec<(String, String)>)
        requires
            self.valid(),
        ensures
            names_differ(result@),
            text_map(result@) == self.texts(),
    {
        let mut fields: Vec<(String, String)> = Vec::new();
        let mut i: usize = 0;
        proof {
            self.values.first_is_all();
            assert(text_map(fields@) =~= opened(self.values.first(0)));
        }
        while i < self.values.entries.len()
            invariant
                i <= self.values.entries@.len(),
                self.valid(),
                fields@.len() == i,
                forall|j: int|
                    0 <= j < i ==> (#[trigger] fields@[j]).0@ == self.values.entries@[j].0@,
                text_map(fields@) == opened(self.values.first(i as int)),
            decreases self.values.entries@.len() - i,
        {
            let (reference, value) = &self.values.entries[i];
            proof {
                self.values.first_grows(i as int);
            }
            let ghost before = fields@;
            fields.push((reference.clone(), unseal(value).to_owned()));
            proof {
                assert(fields@.drop_last() =~= before);
                assert(text_map(fields@) =~= opened(self.values.first(i + 1)));
            }
            i += 1;
        }
        proof {
            self.values.first_is_all();
            assert(opened(self.values.map()) =~= self.texts());
            assert forall|j: int, k: int| 0 <= j < k < fields@.len() implies (
            #[trigger] fields@[j]).0@ != (#[trigger] fields@[k]).0@ by {
                assert(self.values.ids()[j] != self.values.ids()[k]);
            }
        }
        fields
    }

    /// The secrets that were read.
    fn of_texts(fields: Vec<(String, String)>) -> (result: Credentials)
        ensures
            result.valid(),
            result.texts() == text_map(fields@),
    {
        let ghost all = fields@;
        let mut result = Credentials::new();
        assert(all.take(0) =~= Seq::empty());
        for entry in it: fields
            invariant
                it.seq() == all,
                result.valid(),
                result.texts() == text_map(all.take(it.index() as int)),
        {
            let ghost n = it.index() as int;
            let (reference, value) = entry;
            assert(all.take(n + 1).drop_last() =~= all.take(n));
            result.insert_as(reference, Secret::new(value.as_str()));
        }
        assert(all.take(all.len() as int) =~= all);
        result
    }
}

/// What stands under each seal.
spec fn opened(values: Map<Seq<char>, Sealed>) -> Map<Seq<char>, Seq<char>> {
    Map::new(
        |reference: Seq<char>| values.contains_key(reference),
        |reference: Seq<char>| sealed_text(values[reference]),
    )
}

/// References that were tried and are in use are no more than those in use.
proof fn references_are_few(values: Table<String, Sealed>, n: nat)
    requires
        values.wf(),
        n <= u64::MAX,
        forall|k: nat| k <= n ==> values.has(#[trigger] reference_number(k)),
    ensures
        n < values.entries@.len(),
{
    let places = Seq::new(
        n + 1,
        |k: int| choose|i: int| #[trigger] values.at(reference_number(k as nat), i),
    );
    assert forall|k: int| 0 <= k < places.len() implies 0 <= #[trigger] places[k]
        < values.entries@.len() && values.at(reference_number(k as nat), places[k]) by {
        assert(values.has(reference_number(k as nat)));
    }
    assert forall|a: int, b: int| 0 <= a < b < places.len() implies places[a] != places[b] by {
        assert(values.at(reference_number(a as nat), places[a]));
        assert(values.at(reference_number(b as nat), places[b]));
        if places[a] == places[b] {
            reference_numbers_differ(a as nat, b as nat);
        }
    }
    places_are_few(places, values.entries@.len() as int);
}

/// Secrets that live as long as the process does.
pub struct MemoryCredentialVault {
    values: Credentials,
}

impl MemoryCredentialVault {
    pub fn new() -> (result: MemoryCredentialVault)
        ensures
            result.wf(),
            result.secrets() == Map::<Seq<char>, Seq<char>>::empty(),
    {
        MemoryCredentialVault { values: Credentials::new() }
    }
}

impl CredentialVault for MemoryCredentialVault {
    closed spec fn wf(&self) -> bool {
        self.values.valid()
    }

    closed spec fn secrets(&self) -> Map<Seq<char>, Seq<char>> {
        self.values.texts()
    }

    fn insert(&mut self, secret: Secret) -> (result: Result<String, CredentialError>) {
        self.values.insert(secret)
    }

    fn resolve(&self, reference: &str) -> (result: Result<Secret, CredentialError>) {
        self.values.resolve(reference)
    }

    fn remove(&mut self, reference: &str) -> (result: Result<Option<Secret>, CredentialError>) {
        self.values.remove(reference)
    }
}

/// Secrets that are kept in a file, for platforms without a keychain. Every change
/// is followed by a write of `contents`; one that fails is undone.
pub struct FileCredentialVault {
    path: String,
    values: Credentials,
}

/// The secrets in the bytes of a file: none where there is no file, or none that
/// can be read.
pub open spec fn stored_secrets(bytes: Option<Seq<u8>>) -> Map<Seq<char>, Seq<char>> {
    match bytes {
        Some(found) => match json_texts(found) {
            Some(secrets) => secrets,
            None => Map::empty(),
        },
        None => Map::empty(),
    }
}

impl FileCredentialVault {
    pub closed spec fn location(self) -> Seq<char> {
        self.path@
    }

    /// Where the file is.
    pub fn path(&self) -> (result: &str)
        ensures
            result@ == self.location(),
    {
        self.path.as_str()
    }

    /// The vault in a file; `bytes` are what could be read of it.
    pub fn new(path: String, bytes: Option<&[u8]>) -> (result: FileCredentialVault)
        ensures
            result.wf(),
            result.location() == path@,
            result.secrets() == stored_secrets(
                match bytes {
                    Some(found) => Some(found@),
                    None => None,
                },
            ),
    {
        let values = match bytes {
            Some(found) => match parse_texts(found) {
                Some(fields) => Credentials::of_texts(fields),
                None => Credentials::new(),
            },
            None => Credentials::new(),
        };
        FileCredentialVault { path, values }
    }

    /// What the file has to hold: a vault that is opened on it holds the same.
    pub fn contents(&self) -> (result: Vec<u8>)
        requires
            self.wf(),
        ensures
            stored_secrets(Some(result@)) == self.secrets(),
    {
        write_texts(self.values.plain())
    }

    /// Takes back an insertion that could not be written.
    pub fn undo_insert(&mut self, reference: &str)
        requires
            old(self).wf(),
            is_reference(reference@),
        ensures
            final(self).wf(),
            final(self).location() == old(self).location(),
            final(self).secrets() == old(self).secrets().remove(reference@),
    {
        let _ = self.values.remove(reference);
    }

    /// Takes back a removal that could not be written.
    pub fn undo_remove(&mut self, reference: &str, removed: Option<Secret>)
        requires
            old(self).wf(),
        ensures
            final(self).wf(),
            final(self).location() == old(self).location(),
            final(self).secrets() == (match removed {
                Some(secret) => old(self).secrets().insert(reference@, secret.text()),
                None => old(self).secrets(),
            }),
    {
        if let Some(secret) = removed {
            self.values.insert_as(reference.to_owned(), secret);
        }
    }
}

impl CredentialVault for FileCredentialVault {
    closed spec fn wf(&self) -> bool {
        self.values.valid()
    }

    closed spec fn secrets(&self) -> Map<Seq<char>, Seq<char>> {
        self.values.texts()
    }

    fn insert(&mut self, secret: Secret) -> (result: Result<String, CredentialError>)
        ensures
            final(self).location() == old(self).location(),
    {
        self.values.insert(secret)
    }

    fn resolve(&self, reference: &str) -> (result: Result<Secret, CredentialError>) {
        self.values.resolve(reference)
    }

    fn remove(&mut self, reference: &str) -> (result: Result<Option<Secret>, CredentialError>)
        ensures
            final(self).location() == old(self).location(),
    {
        self.values.remove(reference)
    }
}

/// Secrets in the keychain of macOS, under the name of a service.
pub struct KeychainCredentialVault {
    pub service: String,
}

impl Default for KeychainCredentialVault {
    fn default() -> (result: KeychainCredentialVault)
        ensures
            result.service@ == "com.course2md.desktop.service-credentials.v1"@,
    {
        KeychainCredentialVault {
            service: "com.course2md.desktop.service-credentials.v1".to_owned(),
        }
    }
}

/// The keychain's code for an item that is not there.
pub const ITEM_NOT_FOUND: i32 = -25300;

impl KeychainCredentialVault {
    /// The reference under which a secret is to be stored.
    pub fn reference_for(&self, secret: &Secret) -> (result: Result<String, CredentialError>)
        ensures
            match result {
                Ok(reference) => !is_blank(secret.text()) && is_reference(reference@),
                Err(error) => is_blank(secret.text()) && error is Empty,
            },
    {
        if secret.is_empty() {
            Err(CredentialError::Empty)
        } else {
            Ok(new_reference())
        }
    }

    /// What a failed look-up means, by the keychain's code.
    pub fn read_error(&self, code: i32) -> (result: CredentialError)
        ensures
            result == (if code == ITEM_NOT_FOUND {
                CredentialError::NotInKeychain
            } else {
                CredentialError::KeychainRead(code)
            }),
    {
        if code == ITEM_NOT_FOUND {
            CredentialError::NotInKeychain
        } else {
            CredentialError::KeychainRead(code)
        }
    }

    /// What a removal comes to: an item that is not there counts as removed.
    pub fn removal(&self, code: Option<i32>) -> (result: Result<(), CredentialError>)
        ensures
            match result {
                Ok(_) => code is None || code == Some(ITEM_NOT_FOUND),
                Err(error) => code matches Some(own) && own != ITEM_NOT_FOUND && error
                    == CredentialError::KeychainRemove(own),
            },
    {
        match code {
            Some(own) => {
                if own == ITEM_NOT_FOUND {
                    Ok(())
                } else {
                    Err(CredentialError::KeychainRemove(own))
                }
            },
            None => Ok(()),
        }
    }
}

// ----------------------------------------------------------------------- laws

/// An insertion makes a new identity and leaves every credential that is kept as it
/// was: a task that is already queued keeps its own. A removal leaves the others.
pub proof fn an_insertion_leaves_the_others(
    before: Map<Seq<char>, Seq<char>>,
    reference: Seq<char>,
    secret: Seq<char>,
    other: Seq<char>,
)
    requires
        !before.contains_key(reference),
        before.contains_key(other),
    ensures
        reference != other,
        before.insert(reference, secret).contains_key(reference),
        before.insert(reference, secret)[reference] == secret,
        before.insert(reference, secret).contains_key(other),
        before.insert(reference, secret)[other] == before[other],
        before.insert(reference, secret).remove(reference) == before,
{
    assert(before.insert(reference, secret).remove(reference) =~= before);
}

/// A change that could not be written leaves no trace.
pub proof fn a_change_that_fails_is_undone(
    before: Map<Seq<char>, Seq<char>>,
    reference: Seq<char>,
    secret: Seq<char>,
)
    ensures
        !before.contains_key(reference) ==> before.insert(reference, secret).remove(reference)
            == before,
        before.contains_key(reference) ==> before.remove(reference).insert(
            reference,
            before[reference],
        ) == before,
{
    assert(!before.contains_key(reference) ==> before.insert(reference, secret).remove(reference)
        =~= before);
    assert(before.contains_key(reference) ==> before.remove(reference).insert(
        reference,
        before[reference],
    ) =~= before);
}

/// A secret that was kept is given back under its reference, and under no other; the
/// others stay. Nothing is kept of a blank one.
pub proof fn what_is_kept_is_given_back(
    credentials: &mut Credentials,
    secret: Secret,
    kept: Result<String, CredentialError>,
    asked: &str,
    found: Result<Secret, CredentialError>,
    before: Result<Secret, CredentialError>,
)
    requires
        old(credentials).valid(),
        call_ensures(Credentials::insert, (credentials, secret), kept),
        call_ensures(Credentials::resolve, (&*final(credentials), asked), found),
        call_ensures(Credentials::resolve, (&*old(credentials), asked), before),
    ensures
        kept is Ok <==> !is_blank(secret.text()),
        kept is Ok && asked@ == kept->Ok_0@ ==> found is Ok && found->Ok_0.text() == secret.text()
            && before is Err,
        kept is Ok && asked@ != kept->Ok_0@ ==> (found is Ok <==> before is Ok),
        kept is Ok && asked@ != kept->Ok_0@ && found is Ok ==> found->Ok_0.text()
            == before->Ok_0.text(),
        kept is Err ==> kept->Err_0 is Empty && (found is Ok <==> before is Ok),
{
}

/// A secret that was removed is given back no more, and it is the one that was kept; the
/// others stay.
pub proof fn what_is_removed_is_gone(
    credentials: &mut Credentials,
    reference: &str,
    removed: Result<Option<Secret>, CredentialError>,
    asked: &str,
    found: Result<Secret, CredentialError>,
    before: Result<Secret, CredentialError>,
)
    requires
        old(credentials).valid(),
        call_ensures(Credentials::remove, (credentials, reference), removed),
        call_ensures(Credentials::resolve, (&*final(credentials), asked), found),
        call_ensures(Credentials::resolve, (&*old(credentials), asked), before),
    ensures
        removed is Err <==> !is_reference(reference@),
        asked@ == reference@ ==> found is Err,
        asked@ == reference@ && before is Ok ==> removed is Ok && removed->Ok_0 is Some
            && removed->Ok_0->0.text() == before->Ok_0.text(),
        asked@ == reference@ && before is Err && removed is Ok ==> removed->Ok_0 is None,
        asked@ != reference@ ==> (found is Ok <==> before is Ok),
        asked@ != reference@ && found is Ok ==> found->Ok_0.text() == before->Ok_0.text(),
{
}

/// What is no reference is never looked up: it is refused as such, whatever is kept.
pub proof fn only_references_are_looked_up(
    credentials: Credentials,
    asked: &str,
    valid: bool,
    found: Result<Secret, CredentialError>,
)
    requires
        credentials.valid(),
        call_ensures(validate_reference, (asked,), valid),
        call_ensures(Credentials::resolve, (&credentials, asked), found),
    ensures
        !valid ==> found is Err && found->Err_0 is InvalidReference,
        valid && found is Err ==> found->Err_0 is NotFound,
{
}

/// A vault that is opened on what another wrote holds the same secrets.
pub proof fn a_vault_reads_what_it_wrote(
    vault: FileCredentialVault,
    bytes: Vec<u8>,
    path: String,
    written: &[u8],
    opened: FileCredentialVault,
    secret: Seq<char>,
)
    requires
        vault.wf(),
        call_ensures(FileCredentialVault::contents, (&vault,), bytes),
        written@ == bytes@,
        call_ensures(FileCredentialVault::new, (path, Some(written)), opened),
    ensures
        opened.secrets() == vault.secrets(),
        opened.location() == path@,
{
}

/// A secret shows its text to nobody who does not ask for it: what is printed of it is the
/// same for all secrets. What is asked for is what was given.
pub proof fn a_secret_is_what_was_given(value: &str, secret: Secret, shown: &str, printed: &'static str, blank: bool)
    requires
        call_ensures(Secret::new, (value,), secret),
        call_ensures(Secret::expose, (&secret,), shown),
        call_ensures(Secret::redacted, (&secret,), printed),
        call_ensures(Secret::is_empty, (&secret,), blank),
    ensures
        shown@ == value@,
        printed@ == "Secret([REDACTED])"@,
        blank <==> is_blank(value@),
{
}

/// What the system's store does not hold is not found, and needs no removal; any other code
/// is told.
pub proof fn a_missing_item_is_no_failure(
    vault: KeychainCredentialVault,
    code: i32,
    read: CredentialError,
    removed: Result<(), CredentialError>,
    cleared: Result<(), CredentialError>,
)
    requires
        call_ensures(KeychainCredentialVault::read_error, (&vault, code), read),
        call_ensures(KeychainCredentialVault::removal, (&vault, Some(code)), removed),
        call_ensures(KeychainCredentialVault::removal, (&vault, None), cleared),
    ensures
        cleared is Ok,
        read is NotInKeychain <==> code == -25300,
        removed is Ok <==> code == -25300,
        code != -25300 ==> read == CredentialError::KeychainRead(code) && removed->Err_0
            == CredentialError::KeychainRemove(code),
{
}

/// A reference is the word and an identifier, whatever its spelling; what is shorter, or
/// begins otherwise, is none.
pub proof fn a_reference_is_spelled(reference: &str, valid: bool)
    requires
        call_ensures(validate_reference, (reference,), valid),
    ensures
        valid ==> reference@.len() >= 11 + 32,
        valid ==> begins(reference@, "credential-"@),
        reference@.len() == 0 ==> !valid,
{
    reveal_strlit("credential-");
}

/// Whatever vault it is: a secret that was kept is given back under its reference, others stay as
/// they were, and nothing is kept of a blank one.
pub proof fn a_vault_gives_back_what_it_keeps<V: CredentialVault>(
    vault: &mut V,
    secret: Secret,
    kept: Result<String, CredentialError>,
    asked: &str,
    found: Result<Secret, CredentialError>,
    before: Result<Secret, CredentialError>,
)
    requires
        old(vault).wf(),
        call_ensures(V::insert, (vault, secret), kept),
        call_ensures(V::resolve, (&*final(vault), asked), found),
        call_ensures(V::resolve, (&*old(vault), asked), before),
    ensures
        kept is Ok && asked@ == kept->Ok_0@ ==> found is Ok && found->Ok_0.text() == secret.text(),
        kept is Ok && asked@ != kept->Ok_0@ ==> (found is Ok <==> before is Ok),
        kept is Ok && asked@ != kept->Ok_0@ && found is Ok ==> found->Ok_0.text()
            == before->Ok_0.text(),
        is_blank(secret.text()) ==> kept is Err,
        kept is Err ==> (found is Ok <==> before is Ok),
{
}

/// Whatever vault it is: a secret that was removed is given back no more, and the others stay.
pub proof fn a_vault_forgets_what_it_removed<V: CredentialVault>(
    vault: &mut V,
    reference: &str,
    removed: Result<Option<Secret>, CredentialError>,
    asked: &str,
    found: Result<Secret, CredentialError>,
    before: Result<Secret, CredentialError>,
)
    requires
        old(vault).wf(),
        call_ensures(V::remove, (vault, reference), removed),
        call_ensures(V::resolve, (&*final(vault), asked), found),
        call_ensures(V::resolve, (&*old(vault), asked), before),
    ensures
        asked@ == reference@ ==> found is Err,
        asked@ != reference@ ==> (found is Ok <==> before is Ok),
        asked@ != reference@ && found is Ok ==> found->Ok_0.text() == before->Ok_0.text(),
{
}

} // verus!
