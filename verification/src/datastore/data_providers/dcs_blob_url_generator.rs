//! Signed URLs of the specs in blob storage.

use crate::text;
use azure_storage::shared_access_signature::service_sas::BlobSasPermissions;
use azure_storage::ConnectionString;
use azure_storage_blobs::prelude::BlobServiceClient;
use base64::alphabet;
use base64::engine::general_purpose::{GeneralPurpose, GeneralPurposeConfig};
use base64::engine::{DecodePaddingMode, Engine};
use time::OffsetDateTime;
use vstd::prelude::*;

verus! {

/// How long a signed URL is good for.
pub const SIGNED_URL_TTL_SECONDS: i64 = 300;

/// The times that a URL can expire at, in seconds since 1970: those of the years
/// from 0 to 9999, which is what the text of a date in a signature can hold.
pub const EARLIEST_EXPIRY: i64 = -62_167_219_200;

pub const LATEST_EXPIRY: i64 = 253_402_300_799;

/// Which specs a blob holds.
#[derive(Copy, Clone, Debug, PartialEq, Eq, Structural)]
pub enum DcsBlobVersion {
    V1,
    V2,
}

impl DcsBlobVersion {
    pub open spec fn container(self) -> Seq<char> {
        match self {
            DcsBlobVersion::V1 => "dcs-v1"@,
            DcsBlobVersion::V2 => "dcs-v2"@,
        }
    }

    pub fn container_name(self) -> (r: &'static str)
        ensures
            r@ == self.container(),
    {
        match self {
            DcsBlobVersion::V1 => "dcs-v1",
            DcsBlobVersion::V2 => "dcs-v2",
        }
    }
}

/// Why there is no signed URL, in the words of the storage library where it gave
/// the reason.
#[derive(Debug)]
pub enum DcsBlobUrlGeneratorError {
    ParseConnectionString(String),
    MissingAccountName,
    ParseStorageCredentials(String),
    GenerateSasToken(String),
    GenerateSignedBlobUrl(String),
}

/// The model of such a reason.
pub enum BlobErrorView {
    ParseConnectionString(Seq<char>),
    MissingAccountName,
    ParseStorageCredentials(Seq<char>),
    GenerateSasToken(Seq<char>),
    GenerateSignedBlobUrl(Seq<char>),
}

impl View for DcsBlobUrlGeneratorError {
    type V = BlobErrorView;

    open spec fn view(&self) -> BlobErrorView {
        match self {
            DcsBlobUrlGeneratorError::ParseConnectionString(e) =>
                BlobErrorView::ParseConnectionString(e@),
            DcsBlobUrlGeneratorError::MissingAccountName => BlobErrorView::MissingAccountName,
            DcsBlobUrlGeneratorError::ParseStorageCredentials(e) =>
                BlobErrorView::ParseStorageCredentials(e@),
            DcsBlobUrlGeneratorError::GenerateSasToken(e) => BlobErrorView::GenerateSasToken(e@),
            DcsBlobUrlGeneratorError::GenerateSignedBlobUrl(e) =>
                BlobErrorView::GenerateSignedBlobUrl(e@),
        }
    }
}

/// The text of such a reason.
pub open spec fn error_text(e: BlobErrorView) -> Seq<char> {
    match e {
        BlobErrorView::ParseConnectionString(t) => "failed to parse Azure connection string: "@ + t,
        BlobErrorView::MissingAccountName => "missing account name in Azure connection string"@,
        BlobErrorView::ParseStorageCredentials(t) => "failed to parse storage credentials: "@ + t,
        BlobErrorView::GenerateSasToken(t) => "failed to generate blob SAS token: "@ + t,
        BlobErrorView::GenerateSignedBlobUrl(t) => "failed to generate signed blob URL: "@ + t,
    }
}

fn with_reason(what: &str, reason: &String) -> (r: String)
    ensures
        r@ == what@ + reason@,
{
    let mut r = what.to_owned();
    r.append(reason.as_str());
    r
}

impl DcsBlobUrlGeneratorError {
    pub fn to_string(&self) -> (r: String)
        ensures
            r@ == error_text(self@),
    {
        match self {
            DcsBlobUrlGeneratorError::ParseConnectionString(e) => with_reason(
                "failed to parse Azure connection string: ",
                e,
            ),
            DcsBlobUrlGeneratorError::MissingAccountName =>
                "missing account name in Azure connection string".to_owned(),
            DcsBlobUrlGeneratorError::ParseStorageCredentials(e) => with_reason(
                "failed to parse storage credentials: ",
                e,
            ),
            DcsBlobUrlGeneratorError::GenerateSasToken(e) => with_reason(
                "failed to generate blob SAS token: ",
                e,
            ),
            DcsBlobUrlGeneratorError::GenerateSignedBlobUrl(e) => with_reason(
                "failed to generate signed blob URL: ",
                e,
            ),
        }
    }
}

/// What a connection string holds.
#[derive(Debug)]
pub struct ConnectionParts {
    pub account_name: Option<String>,
    pub account_key: Option<String>,
    pub sas: Option<String>,
}

/// The account name, account key and access signature that a connection string
/// holds; the reason where it is no connection string.
pub uninterp spec fn connection_parts(connection_string: Seq<char>) -> Result<
    (Option<Seq<char>>, Option<Seq<char>>, Option<Seq<char>>),
    Seq<char>,
>;

pub open spec fn parts_view(r: Result<ConnectionParts, String>) -> Result<
    (Option<Seq<char>>, Option<Seq<char>>, Option<Seq<char>>),
    Seq<char>,
> {
    match r {
        Ok(p) => Ok(
            (
                text::text_option(p.account_name),
                text::text_option(p.account_key),
                text::text_option(p.sas),
            ),
        ),
        Err(e) => Err(e@),
    }
}

/// `azure_storage::ConnectionString::new` reads a connection string. What it
/// finds depends on the string alone.
#[verifier::external_body]
fn read_connection_string(connection_string: &str) -> (r: Result<ConnectionParts, String>)
    ensures
        parts_view(r) == connection_parts(connection_string@),
{
    let parsed = ConnectionString::new(connection_string).map_err(|e| e.to_string())?;
    Ok(ConnectionParts {
        account_name: parsed.account_name.map(str::to_string),
        account_key: parsed.account_key.map(str::to_string),
        sas: parsed.sas.map(str::to_string),
    })
}

/// Why a connection string gives no credentials, where it gives none.
pub uninterp spec fn credentials_failure(connection_string: Seq<char>) -> Option<Seq<char>>;

/// `azure_storage::ConnectionString::storage_credentials`. Whether there are
/// credentials depends on the connection string alone.
#[verifier::external_body]
fn check_storage_credentials(connection_string: &str) -> (r: Option<String>)
    ensures
        text::text_option(r) == credentials_failure(connection_string@),
{
    let parsed = ConnectionString::new(connection_string).ok()?;
    parsed.storage_credentials().err().map(|e| e.to_string())
}

/// Whether a text is base 64 in the standard alphabet, padded or not.
pub uninterp spec fn is_base64(s: Seq<char>) -> bool;

/// `base64::engine::Engine::decode` in the standard alphabet, with padding
/// optional.
#[verifier::external_body]
fn decodes_from_base64(s: &str) -> (r: bool)
    ensures
        r == is_base64(s@),
{
    let config = GeneralPurposeConfig::new().with_decode_padding_mode(
        DecodePaddingMode::Indifferent,
    );
    GeneralPurpose::new(&alphabet::STANDARD, config).decode(s).is_ok()
}

/// Whether URLs can be signed with what a connection string holds: it must hold
/// an access signature instead of a key, which is refused with a reason, or a
/// key that can be decoded.
pub open spec fn can_sign_with(connection_string: Seq<char>) -> bool {
    match connection_parts(connection_string) {
        Ok((name, key, sas)) => name is Some && credentials_failure(connection_string) is None && (
        sas is Some || match key {
            Some(k) => is_base64(k),
            None => false,
        }),
        Err(_) => false,
    }
}

/// The URL of a blob with a signature that is good until `expiry`, in seconds
/// since 1970, and lets anyone read the blob where `read` says so; where there is
/// none, whether it was the token that could not be made, and the reason.
pub uninterp spec fn signed_blob_url(
    connection_string: Seq<char>,
    container: Seq<char>,
    blob: Seq<char>,
    read: bool,
    expiry: i64,
) -> Result<Seq<char>, (bool, Seq<char>)>;

pub open spec fn signed_view(r: Result<String, (bool, String)>) -> Result<
    Seq<char>,
    (bool, Seq<char>),
> {
    match r {
        Ok(url) => Ok(url@),
        Err((token, reason)) => Err((token, reason@)),
    }
}

/// `BlobClient::shared_access_signature` and `BlobClient::generate_signed_blob_url`
/// of `azure_storage_blobs`, for a client of the account that the connection
/// string names. The signature is a keyed hash of the arguments, so the URL
/// depends on them alone. Signing panics where the key is not base 64, and where the
/// year of the expiry does not have four digits.
#[verifier::external_body]
fn sign_blob_url(
    connection_string: &str,
    container: &str,
    blob: &str,
    read: bool,
    expiry: i64,
) -> (r: Result<String, (bool, String)>)
    requires
        can_sign_with(connection_string@),
        EARLIEST_EXPIRY <= expiry <= LATEST_EXPIRY,
    ensures
        signed_view(r) == signed_blob_url(connection_string@, container@, blob@, read, expiry),
{
    let parsed = ConnectionString::new(connection_string).unwrap();
    let account = parsed.account_name.unwrap_or_default();
    let client = BlobServiceClient::new(account, parsed.storage_credentials().unwrap());
    let blob_client = client.container_client(container).blob_client(blob);
    let until = OffsetDateTime::from_unix_timestamp(expiry).unwrap();
    let permissions = BlobSasPermissions { read, ..Default::default() };
    let sas = blob_client.shared_access_signature(permissions, until);
    let sas = sas.map_err(|e| (true, e.to_string()))?;
    let url = blob_client.generate_signed_blob_url(&sas).map_err(|e| (false, e.to_string()))?;
    Ok(url.to_string())
}

/// Makes signed URLs for one storage account.
#[derive(Debug)]
pub struct DcsBlobUrlGenerator {
    connection_string: String,
}

/// The name of a blob with the specs of a key.
pub open spec fn blob_name(company_id: Seq<char>, sdk_key: Seq<char>) -> Seq<char> {
    company_id + "/"@ + sdk_key
}

/// Why there is no generator for a connection string, where there is none.
pub open spec fn generator_failure(connection_string: Seq<char>) -> Option<BlobErrorView> {
    match connection_parts(connection_string) {
        Err(reason) => Some(BlobErrorView::ParseConnectionString(reason)),
        Ok((None, _, _)) => Some(BlobErrorView::MissingAccountName),
        Ok((Some(_), _, _)) => match credentials_failure(connection_string) {
            Some(reason) => Some(BlobErrorView::ParseStorageCredentials(reason)),
            None => None,
        },
    }
}

pub open spec fn url_view(r: Result<String, DcsBlobUrlGeneratorError>) -> Result<
    Seq<char>,
    BlobErrorView,
> {
    match r {
        Ok(url) => Ok(url@),
        Err(e) => Err(e@),
    }
}

/// What signing gave, as a URL or the reason why there is none.
pub open spec fn download_url(signed: Result<Seq<char>, (bool, Seq<char>)>) -> Result<
    Seq<char>,
    BlobErrorView,
> {
    match signed {
        Ok(url) => Ok(url),
        Err((token, reason)) => if token {
            Err(BlobErrorView::GenerateSasToken(reason))
        } else {
            Err(BlobErrorView::GenerateSignedBlobUrl(reason))
        },
    }
}

/// Tells a failure to make the token from a failure to make the URL.
pub fn url_or_reason(signed: Result<String, (bool, String)>) -> (r: Result<
    String,
    DcsBlobUrlGeneratorError,
>)
    ensures
        url_view(r) == download_url(signed_view(signed)),
{
    match signed {
        Ok(url) => Ok(url),
        Err((token, reason)) => if token {
            Err(DcsBlobUrlGeneratorError::GenerateSasToken(reason))
        } else {
            Err(DcsBlobUrlGeneratorError::GenerateSignedBlobUrl(reason))
        },
    }
}

impl DcsBlobUrlGenerator {
    /// The connection string that this was made from.
    pub closed spec fn source(&self) -> Seq<char> {
        self.connection_string@
    }

    pub fn from_connection_string(connection_string: &str) -> (r: Result<
        Self,
        DcsBlobUrlGeneratorError,
    >)
        ensures
            match r {
                Ok(g) => generator_failure(connection_string@) is None && g.source()
                    == connection_string@,
                Err(e) => generator_failure(connection_string@) == Some(e@),
            },
    {
        let parts = match read_connection_string(connection_string) {
            Ok(parts) => parts,
            Err(reason) => {
                return Err(DcsBlobUrlGeneratorError::ParseConnectionString(reason));
            },
        };
        if parts.account_name.is_none() {
            return Err(DcsBlobUrlGeneratorError::MissingAccountName);
        }
        if let Some(reason) = check_storage_credentials(connection_string) {
            return Err(DcsBlobUrlGeneratorError::ParseStorageCredentials(reason));
        }
        Ok(DcsBlobUrlGenerator { connection_string: connection_string.to_owned() })
    }

    /// Whether URLs can be signed for this account.
    pub fn can_sign(&self) -> (r: bool)
        ensures
            r == can_sign_with(self.source()),
    {
        let parts = match read_connection_string(self.connection_string.as_str()) {
            Ok(parts) => parts,
            Err(_) => {
                return false;
            },
        };
        if parts.account_name.is_none() {
            return false;
        }
        if check_storage_credentials(self.connection_string.as_str()).is_some() {
            return false;
        }
        if parts.sas.is_some() {
            return true;
        }
        match parts.account_key {
            Some(key) => decodes_from_base64(key.as_str()),
            None => false,
        }
    }

    /// The URL from which the specs of a key can be read for the next five
    /// minutes. The time is given in seconds since 1970.
    pub fn build_download_url(
        &self,
        version: DcsBlobVersion,
        company_id: &str,
        sdk_key: &str,
        now: i64,
    ) -> (r: Result<String, DcsBlobUrlGeneratorError>)
        requires
            can_sign_with(self.source()),
            EARLIEST_EXPIRY <= now + SIGNED_URL_TTL_SECONDS <= LATEST_EXPIRY,
        ensures
            url_view(r) == download_url(
                signed_blob_url(
                    self.source(),
                    version.container(),
                    blob_name(company_id@, sdk_key@),
                    true,
                    (now + SIGNED_URL_TTL_SECONDS) as i64,
                ),
            ),
    {
        let mut name = company_id.to_owned();
        name.append("/");
        name.append(sdk_key);
        url_or_reason(
            sign_blob_url(
                self.connection_string.as_str(),
                version.container_name(),
                name.as_str(),
                true,
                now + SIGNED_URL_TTL_SECONDS,
            ),
        )
    }

    /// The same for any account and time: nothing where URLs cannot be signed for
    /// the account, or the time is out of range.
    pub fn try_build_download_url(
        &self,
        version: DcsBlobVersion,
        company_id: &str,
        sdk_key: &str,
        now: i64,
    ) -> (r: Option<Result<String, DcsBlobUrlGeneratorError>>)
        ensures
            (match r {
                Some(u) => Some(url_view(u)),
                None => None,
            }) == (if can_sign_with(self.source()) && EARLIEST_EXPIRY <= now
                + SIGNED_URL_TTL_SECONDS <= LATEST_EXPIRY {
                Some(
                    download_url(
                        signed_blob_url(
                            self.source(),
                            version.container(),
                            blob_name(company_id@, sdk_key@),
                            true,
                            (now + SIGNED_URL_TTL_SECONDS) as i64,
                        ),
                    ),
                )
            } else {
                None
            }),
    {
        if now < EARLIEST_EXPIRY - SIGNED_URL_TTL_SECONDS || now > LATEST_EXPIRY
            - SIGNED_URL_TTL_SECONDS {
            return None;
        }
        if !self.can_sign() {
            return None;
        }
        Some(self.build_download_url(version, company_id, sdk_key, now))
    }
}

/// Each version, company and key has a blob of its own.
pub proof fn law_blobs_are_told_apart(
    company_a: Seq<char>,
    key_a: Seq<char>,
    company_b: Seq<char>,
    key_b: Seq<char>,
)
    requires
        !company_a.contains('/') && !company_b.contains('/'),
    ensures
        blob_name(company_a, key_a) == blob_name(company_b, key_b) <==> company_a == company_b
            && key_a == key_b,
        DcsBlobVersion::V1.container() != DcsBlobVersion::V2.container(),
{
    reveal_strlit("/");
    reveal_strlit("dcs-v1");
    reveal_strlit("dcs-v2");
    assert("dcs-v1"@[5] == '1' && "dcs-v2"@[5] == '2');
    assert("/"@ =~= seq!['/']);
    if blob_name(company_a, key_a) == blob_name(company_b, key_b) {
        text::lemma_same_up_to(company_a, key_a, company_b, key_b, '/');
    }
}

/// What is signed is handed on, and what is not is told apart by whether the token or the
/// address failed.
pub proof fn law_signed_addresses_are_handed_on(
    signed: Result<Seq<char>, (bool, Seq<char>)>,
    url: Seq<char>,
    reason: Seq<char>,
)
    ensures
        download_url(signed) == Ok::<Seq<char>, BlobErrorView>(url) <==> signed == Ok::<
            Seq<char>,
            (bool, Seq<char>),
        >(url),
        download_url(signed) == Err::<Seq<char>, BlobErrorView>(
            BlobErrorView::GenerateSasToken(reason),
        ) <==> signed == Err::<Seq<char>, (bool, Seq<char>)>((true, reason)),
        download_url(signed) == Err::<Seq<char>, BlobErrorView>(
            BlobErrorView::GenerateSignedBlobUrl(reason),
        ) <==> signed == Err::<Seq<char>, (bool, Seq<char>)>((false, reason)),
{
}

/// Addresses can be signed only with a connection that could be set up, and where it has
/// something to sign with.
pub proof fn law_only_sound_connections_sign(connection_string: Seq<char>)
    ensures
        can_sign_with(connection_string) ==> generator_failure(connection_string) is None,
        generator_failure(connection_string) is None ==> {
            &&& connection_parts(connection_string) is Ok
            &&& (connection_parts(connection_string)->Ok_0).0 is Some
            &&& can_sign_with(connection_string) <==> {
                ||| (connection_parts(connection_string)->Ok_0).2 is Some
                ||| ((connection_parts(connection_string)->Ok_0).1 is Some && is_base64(
                    (connection_parts(connection_string)->Ok_0).1->0,
                ))
            }
        },
        connection_parts(connection_string) is Err ==> generator_failure(connection_string) == Some(
            BlobErrorView::ParseConnectionString(connection_parts(connection_string)->Err_0),
        ),
        connection_parts(connection_string) is Ok && (connection_parts(connection_string)->Ok_0).0
            is None ==> generator_failure(connection_string) == Some(
            BlobErrorView::MissingAccountName,
        ),
{
}

} // verus!
