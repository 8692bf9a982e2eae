//! The configuration of a run: the credential, the zone and the record's name.

use crate::digits::{has_long_digit_run, holds_long_digit_run};
use crate::error::{ConfigError, ConfigField};
use vstd::prelude::*;
use vstd::string::StringExecFns;

verus! {

/// A parsed JSON document of the `json` crate.
#[verifier::external_type_specification]
#[verifier::external_body]
pub struct ExJsonValue(json::JsonValue);

/// The error of the `json` crate's parser.
#[verifier::external_type_specification]
#[verifier::external_body]
pub struct ExJsonError(json::Error);

/// The members of a JSON document whose values are strings, by key. A
/// document that is no object has none.
pub uninterp spec fn string_members(doc: json::JsonValue) -> Map<Seq<char>, Seq<char>>;

/// What `json::parse` makes of a text: nothing where the text is not valid
/// JSON, otherwise the string members of the document.
pub uninterp spec fn parsed_string_members(text: Seq<char>) -> Option<Map<Seq<char>, Seq<char>>>;

/// Calls `json::parse`. The contract names the outcome: the call fails exactly
/// on the texts for which `parsed_string_members` is `None`, and otherwise the
/// document's string members are those that `parsed_string_members` gives.
/// Texts with a longer run of digits than `MAX_DIGIT_RUN` are left out,
/// because the parser's count of the digits of a fraction can overflow on
/// them.
#[verifier::external_body]
fn parse_document(text: &str) -> (r: Result<json::JsonValue, json::Error>)
    requires
        !has_long_digit_run(text@),
    ensures
        match r {
            Ok(doc) => parsed_string_members(text@) == Some(string_members(doc)),
            Err(_) => parsed_string_members(text@) is None,
        },
{
    json::parse(text)
}

/// Calls `to_string` on the parser's error, which goes to the `Display` impl
/// of `json::Error`. Nothing is claimed of the text.
#[verifier::external_body]
fn describe_parse_error(error: &json::Error) -> (text: String) {
    error.to_string()
}

/// Indexes the document by `key` (`IndexMut<&str>` of `json::JsonValue`) and
/// calls `JsonValue::take_string` on the member found. The contract claims
/// that the string under `key` is returned where the document has one there
/// and `None` otherwise, that the document then has no string under `key`,
/// and that its other string members are unchanged.
#[verifier::external_body]
fn take_string_member(doc: &mut json::JsonValue, key: &str) -> (r: Option<String>)
    ensures
        string_members(*final(doc)) == string_members(*old(doc)).remove(key@),
        match r {
            Some(s) => string_members(*old(doc)).contains_key(key@) && string_members(
                *old(doc),
            )[key@] == s@,
            None => !string_members(*old(doc)).contains_key(key@),
        },
{
    doc[key].take_string()
}

/// What a run needs to know. The type has no `Debug`, so that the credential
/// cannot reach a log that way: `render` is the way to show a configuration.
#[derive(Clone)]
pub struct CfddnsConfig {
    /// The API token for the DNS provider.
    pub api_token: String,
    /// The identifier of the zone that holds the record.
    pub zone_id: String,
    /// The name of the record in that zone.
    pub record_name: String,
}

/// A configuration as a mathematical value.
pub struct ConfigView {
    pub api_token: Seq<char>,
    pub zone_id: Seq<char>,
    pub record_name: Seq<char>,
}

impl View for CfddnsConfig {
    type V = ConfigView;

    open spec fn view(&self) -> ConfigView {
        ConfigView {
            api_token: self.api_token@,
            zone_id: self.zone_id@,
            record_name: self.record_name@,
        }
    }
}

/// The value that a member has, if the document has it.
pub open spec fn member(members: Map<Seq<char>, Seq<char>>, field: ConfigField) -> Option<
    Seq<char>,
> {
    if members.contains_key(field.spec_key()) {
        Some(members[field.spec_key()])
    } else {
        None
    }
}

/// The configuration that three settings make, or the first of them, in the
/// order credential, zone, name, that is missing.
pub open spec fn config_of_fields(
    api_token: Option<Seq<char>>,
    zone_id: Option<Seq<char>>,
    record_name: Option<Seq<char>>,
) -> Result<ConfigView, ConfigError> {
    if api_token is None {
        Err(ConfigError::MissingField(ConfigField::ApiToken))
    } else if zone_id is None {
        Err(ConfigError::MissingField(ConfigField::ZoneId))
    } else if record_name is None {
        Err(ConfigError::MissingField(ConfigField::RecordName))
    } else {
        Ok(
            ConfigView {
                api_token: api_token->0,
                zone_id: zone_id->0,
                record_name: record_name->0,
            },
        )
    }
}

/// The outcome of loading a text. It follows from what the JSON parser
/// makes of the text, whatever the length of the text; only a text with more
/// than `MAX_DIGIT_RUN` digits in a row holds a number that the parser cannot
/// count, and is not read.
pub open spec fn config_of_text(text: Seq<char>) -> Result<ConfigView, ConfigError> {
    if has_long_digit_run(text) {
        Err(ConfigError::Malformed)
    } else {
        config_of_members(parsed_string_members(text))
    }
}

/// One text stands in another, as a run of characters next to each other.
pub open spec fn occurs_in(needle: Seq<char>, text: Seq<char>) -> bool {
    exists|i: int|
        0 <= i && i + needle.len() <= text.len() && #[trigger] text.subrange(
            i,
            i + needle.len(),
        ) == needle
}

/// The outcome of loading, given what the JSON parser made of the text.
pub open spec fn config_of_members(members: Option<Map<Seq<char>, Seq<char>>>) -> Result<
    ConfigView,
    ConfigError,
> {
    match members {
        None => Err(ConfigError::Malformed),
        Some(m) => config_of_fields(
            member(m, ConfigField::ApiToken),
            member(m, ConfigField::ZoneId),
            member(m, ConfigField::RecordName),
        ),
    }
}

/// The view of an optional string.
pub open spec fn text_of(s: Option<String>) -> Option<Seq<char>> {
    match s {
        Some(s) => Some(s@),
        None => None,
    }
}

/// The outcome of loading as a mathematical value.
pub open spec fn outcome_view(r: Result<CfddnsConfig, ConfigError>) -> Result<
    ConfigView,
    ConfigError,
> {
    match r {
        Ok(c) => Ok(c@),
        Err(e) => Err(e),
    }
}

/// What `render` returns for a zone and a record name.
pub open spec fn rendering(zone_id: Seq<char>, record_name: Seq<char>) -> Seq<char> {
    "{zone_id="@ + zone_id + ", record_name="@ + record_name + ", api_token=*****}"@
}

impl CfddnsConfig {
    /// Loads the configuration from the text of a JSON document. The text
    /// must be JSON that the parser can read, and the document must hold a
    /// string under each of `api_token`, `zone_id` and `record_name`; the
    /// first that is missing, in this order, is reported.
    pub fn new(config_data: &str) -> (r: Result<CfddnsConfig, ConfigError>)
        ensures
            outcome_view(r) == config_of_text(config_data@),
    {
        if holds_long_digit_run(config_data) {
            return Err(ConfigError::Malformed);
        }
        let mut doc = match parse_document(config_data) {
            Ok(doc) => doc,
            Err(_) => {
                return Err(ConfigError::Malformed);
            },
        };
        proof {
            lemma_keys_differ();
        }
        let api_token = take_string_member(&mut doc, ConfigField::ApiToken.key());
        let zone_id = take_string_member(&mut doc, ConfigField::ZoneId.key());
        let record_name = take_string_member(&mut doc, ConfigField::RecordName.key());
        CfddnsConfig::from_fields(api_token, zone_id, record_name)
    }

    /// What stands against reading a text as JSON, in the parser's own words
    /// where the parser was asked: there is such a text exactly where loading
    /// fails because the text is not JSON that the parser can read.
    pub fn parse_failure(config_data: &str) -> (detail: Option<String>)
        ensures
            detail is Some <==> config_of_text(config_data@) == Err::<ConfigView, ConfigError>(
                ConfigError::Malformed,
            ),
    {
        if holds_long_digit_run(config_data) {
            return Some(String::from_str("a number has more digits than can be counted"));
        }
        match parse_document(config_data) {
            Ok(_) => None,
            Err(e) => Some(describe_parse_error(&e)),
        }
    }

    /// Makes a configuration of the three settings, each as the document
    /// gave it. Where one is missing there is no configuration, and the
    /// error names the first that is missing, in the order credential, zone,
    /// name.
    pub fn from_fields(
        api_token: Option<String>,
        zone_id: Option<String>,
        record_name: Option<String>,
    ) -> (r: Result<CfddnsConfig, ConfigError>)
        ensures
            outcome_view(r) == config_of_fields(
                text_of(api_token),
                text_of(zone_id),
                text_of(record_name),
            ),
    {
        let api_token = match api_token {
            Some(s) => s,
            None => {
                return Err(ConfigError::MissingField(ConfigField::ApiToken));
            },
        };
        let zone_id = match zone_id {
            Some(s) => s,
            None => {
                return Err(ConfigError::MissingField(ConfigField::ZoneId));
            },
        };
        let record_name = match record_name {
            Some(s) => s,
            None => {
                return Err(ConfigError::MissingField(ConfigField::RecordName));
            },
        };
        Ok(CfddnsConfig { api_token, zone_id, record_name })
    }

    /// The configuration as text for a log or a screen: the zone and the
    /// record's name, and five asterisks in place of the credential.
    pub fn render(&self) -> (text: String)
        ensures
            text@ == rendering(self@.zone_id, self@.record_name),
    {
        let mut text = String::from_str("{zone_id=");
        text.append(self.zone_id.as_str());
        text.append(", record_name=");
        text.append(self.record_name.as_str());
        text.append(", api_token=*****}");
        text
    }
}

/// The three keys are three different texts.
pub proof fn lemma_keys_differ()
    ensures
        ConfigField::ApiToken.spec_key() != ConfigField::ZoneId.spec_key(),
        ConfigField::ApiToken.spec_key() != ConfigField::RecordName.spec_key(),
        ConfigField::ZoneId.spec_key() != ConfigField::RecordName.spec_key(),
{
    reveal_strlit("api_token");
    reveal_strlit("zone_id");
    reveal_strlit("record_name");
    assert("api_token"@.len() == 9);
    assert("zone_id"@.len() == 7);
    assert("record_name"@.len() == 11);
}

/// A configuration in which a required setting is missing is never loaded:
/// whatever the other settings hold, the outcome is the error that names a
/// missing setting.
pub proof fn law_missing_field_fails(
    api_token: Option<Seq<char>>,
    zone_id: Option<Seq<char>>,
    record_name: Option<Seq<char>>,
)
    requires
        api_token is None || zone_id is None || record_name is None,
    ensures
        config_of_fields(api_token, zone_id, record_name) matches Err(
            ConfigError::MissingField(_),
        ),
{
}

/// A document that lacks a string under one of the three keys is not loaded.
pub proof fn law_missing_member_fails(members: Map<Seq<char>, Seq<char>>, field: ConfigField)
    requires
        !members.contains_key(field.spec_key()),
    ensures
        config_of_members(Some(members)) matches Err(ConfigError::MissingField(_)),
{
}

/// A document is loaded exactly where it holds a string under each of the
/// three keys, and the configuration then holds those three strings.
pub proof fn law_loads_iff_all_members(members: Map<Seq<char>, Seq<char>>)
    ensures
        config_of_members(Some(members)) is Ok <==> members.contains_key(
            ConfigField::ApiToken.spec_key(),
        ) && members.contains_key(ConfigField::ZoneId.spec_key()) && members.contains_key(
            ConfigField::RecordName.spec_key(),
        ),
        config_of_members(Some(members)) is Ok ==> config_of_members(Some(members))->Ok_0 == (
        ConfigView {
            api_token: members[ConfigField::ApiToken.spec_key()],
            zone_id: members[ConfigField::ZoneId.spec_key()],
            record_name: members[ConfigField::RecordName.spec_key()],
        }),
{
}

/// The outcome of loading depends on the three settings alone: two
/// documents that agree on them, whatever else they hold and however they
/// are written, give the same outcome.
pub proof fn law_outcome_depends_on_settings(
    a: Map<Seq<char>, Seq<char>>,
    b: Map<Seq<char>, Seq<char>>,
)
    requires
        member(a, ConfigField::ApiToken) == member(b, ConfigField::ApiToken),
        member(a, ConfigField::ZoneId) == member(b, ConfigField::ZoneId),
        member(a, ConfigField::RecordName) == member(b, ConfigField::RecordName),
    ensures
        config_of_members(Some(a)) == config_of_members(Some(b)),
{
}

/// The rendering does not depend on the credential: two configurations with
/// the same zone and record name render to the same text, whatever their
/// credentials are.
pub proof fn law_rendering_ignores_credential(a: ConfigView, b: ConfigView)
    requires
        a.zone_id == b.zone_id,
        a.record_name == b.record_name,
    ensures
        rendering(a.zone_id, a.record_name) == rendering(b.zone_id, b.record_name),
{
}

/// The rendering does not hold the credential, where the credential holds
/// a character that occurs neither in the zone, nor in the record's name,
/// nor in the fixed text of a rendering. (A credential made only of
/// characters that the rest of the rendering holds can occur in it by
/// chance: one that is equal to the zone, for example.)
pub proof fn law_rendering_lacks_credential(c: ConfigView, k: int)
    requires
        0 <= k < c.api_token.len(),
        !c.zone_id.contains(c.api_token[k]),
        !c.record_name.contains(c.api_token[k]),
        !rendering(Seq::empty(), Seq::empty()).contains(c.api_token[k]),
    ensures
        !occurs_in(c.api_token, rendering(c.zone_id, c.record_name)),
{
    let token = c.api_token;
    let ch = token[k];
    let text = rendering(c.zone_id, c.record_name);
    let fixed = rendering(Seq::empty(), Seq::empty());
    let a = "{zone_id="@;
    let b = ", record_name="@;
    let e = ", api_token=*****}"@;
    if occurs_in(token, text) {
        let i = choose|i: int|
            0 <= i && i + token.len() <= text.len() && #[trigger] text.subrange(i, i + token.len())
                == token;
        let j = i + k;
        assert(text.subrange(i, i + token.len())[k] == text[j]);
        assert(text[j] == ch);
        assert(fixed =~= a + b + e);
        let za = a.len() as int;
        let zb = za + c.zone_id.len();
        let na = zb + b.len();
        let nb = na + c.record_name.len();
        if j < za {
            assert(fixed[j] == ch);
        } else if j < zb {
            assert(c.zone_id[j - za] == ch);
        } else if j < na {
            assert(fixed[za + (j - zb)] == ch);
        } else if j < nb {
            assert(c.record_name[j - na] == ch);
        } else {
            assert(fixed[za + b.len() + (j - nb)] == ch);
        }
    }
}

} // verus!
