//! OID4VCI credential-issuer metadata: the document published at
//! `{credential_issuer}/.well-known/openid-credential-issuer`, its location and
//! the reading of the response that carries it.

use vstd::prelude::*;

use crate::text::{chars_of, is_success_status};

verus! {

/// Parsed credential-issuer metadata: endpoint URLs and the supported
/// credential configurations, by configuration id.
#[derive(Debug)]
pub struct CredentialIssuerMetadata {
    pub credential_issuer: String,
    pub token_endpoint: String,
    pub credential_endpoint: String,
    pub credential_configurations_supported: Vec<(String, CredentialConfiguration)>,
}

/// One supported credential configuration.
#[derive(Debug)]
pub struct CredentialConfiguration {
    pub format: String,
    pub cryptographic_binding_methods_supported: Vec<String>,
    pub proof_types_supported: Vec<(String, ProofTypeMetadata)>,
}

/// Metadata of one proof type.
#[derive(Debug)]
pub struct ProofTypeMetadata {
    pub proof_signing_alg_values_supported: Vec<String>,
}

/// Why the metadata could not be had.
#[derive(Debug)]
pub enum MetadataError {
    /// The request failed or its body was not text.
    Http(String),
    /// The issuer answered with a non-2xx status.
    Status { status: u16, body: String },
    /// The body was not a metadata document.
    Decode(String),
}

/// The configuration listed first under `id`, if any.
pub open spec fn configuration_for(
    confs: Seq<(String, CredentialConfiguration)>,
    id: Seq<char>,
) -> Option<CredentialConfiguration>
    decreases confs.len(),
{
    if confs.len() == 0 {
        None
    } else if confs[0].0@ == id {
        Some(confs[0].1)
    } else {
        configuration_for(confs.drop_first(), id)
    }
}

/// No configuration id is listed twice, as in the issuer's JSON object.
pub open spec fn configuration_ids_distinct(confs: Seq<(String, CredentialConfiguration)>) -> bool {
    forall|i: int, j: int|
        0 <= i < j < confs.len() ==> #[trigger] confs[i].0@ != #[trigger] confs[j].0@
}

/// Where ids are distinct, the configuration found for the id of entry `i` is
/// that entry's configuration.
pub proof fn law_configuration_is_the_listed_one(confs: Seq<(String, CredentialConfiguration)>, i: int)
    requires
        configuration_ids_distinct(confs),
        0 <= i < confs.len(),
    ensures
        configuration_for(confs, confs[i].0@) == Some(confs[i].1),
    decreases i,
{
    if i > 0 {
        let rest = confs.drop_first();
        assert(confs[0].0@ != confs[i].0@);
        assert(rest[i - 1] == confs[i]);
        assert forall|a: int, b: int| 0 <= a < b < rest.len() implies #[trigger] rest[a].0@
            != #[trigger] rest[b].0@ by {
            assert(rest[a] == confs[a + 1] && rest[b] == confs[b + 1]);
        }
        law_configuration_is_the_listed_one(rest, i - 1);
    }
}

/// The configuration found for `id` is listed under `id`; none is found only
/// where no entry has that id.
pub proof fn lemma_configuration_for_listed(confs: Seq<(String, CredentialConfiguration)>, id: Seq<char>)
    ensures
        configuration_for(confs, id) matches Some(c) ==> exists|i: int|
            0 <= i < confs.len() && #[trigger] confs[i].0@ == id && confs[i].1 == c,
        configuration_for(confs, id) is None ==> forall|i: int|
            0 <= i < confs.len() ==> #[trigger] confs[i].0@ != id,
    decreases confs.len(),
{
    if confs.len() > 0 {
        let rest = confs.drop_first();
        lemma_configuration_for_listed(rest, id);
        if confs[0].0@ != id {
            if let Some(c) = configuration_for(rest, id) {
                let k = choose|k: int| 0 <= k < rest.len() && #[trigger] rest[k].0@ == id && rest[k].1 == c;
                assert(confs[k + 1] == rest[k]);
            } else {
                assert forall|i: int| 0 <= i < confs.len() implies #[trigger] confs[i].0@ != id by {
                    if i > 0 {
                        assert(confs[i] == rest[i - 1]);
                    }
                }
            }
        }
    }
}

impl CredentialIssuerMetadata {
    /// Its configuration ids are distinct.
    pub open spec fn wf(&self) -> bool {
        configuration_ids_distinct(self.credential_configurations_supported@)
    }

    /// The supported configuration with id `id`: the entry listed under `id`,
    /// which is the only one where the metadata is well formed.
    pub fn configuration(&self, id: &str) -> (r: Option<&CredentialConfiguration>)
        ensures
            match r {
                Some(c) => configuration_for(self.credential_configurations_supported@, id@)
                    == Some(*c),
                None => configuration_for(self.credential_configurations_supported@, id@) is None,
            },
            r matches Some(c) ==> exists|i: int|
                0 <= i < self.credential_configurations_supported@.len()
                    && #[trigger] self.credential_configurations_supported@[i].0@ == id@
                    && self.credential_configurations_supported@[i].1 == *c,
            r is None ==> forall|i: int|
                0 <= i < self.credential_configurations_supported@.len()
                    ==> #[trigger] self.credential_configurations_supported@[i].0@ != id@,
            self.wf() ==> forall|i: int|
                0 <= i < self.credential_configurations_supported@.len()
                    && #[trigger] self.credential_configurations_supported@[i].0@ == id@ ==> r
                    == Some(&self.credential_configurations_supported@[i].1),
    {
        proof {
            let cs = self.credential_configurations_supported@;
            lemma_configuration_for_listed(cs, id@);
            if self.wf() {
                assert forall|i: int| 0 <= i < cs.len() && #[trigger] cs[i].0@ == id@ implies configuration_for(
                    cs,
                    id@,
                ) == Some(cs[i].1) by {
                    law_configuration_is_the_listed_one(cs, i);
                }
            }
        }
        let key = id.to_owned();
        let confs = &self.credential_configurations_supported;
        let mut i: usize = 0;
        assert(confs@.skip(0) =~= confs@);
        while i < confs.len()
            invariant
                i <= confs@.len(),
                key@ == id@,
                confs@ == self.credential_configurations_supported@,
                configuration_for(confs@, id@) == configuration_for(confs@.skip(i as int), id@),
            decreases confs@.len() - i,
        {
            proof {
                assert(confs@.skip(i as int).drop_first() =~= confs@.skip(i + 1));
                assert(confs@.skip(i as int)[0] == confs@[i as int]);
                assert(configuration_for(confs@.skip(i as int), id@) == if confs@[i as int].0@ == id@ {
                    Some(confs@[i as int].1)
                } else {
                    configuration_for(confs@.skip(i + 1), id@)
                });
            }
            if confs[i].0 == key {
                return Some(&confs[i].1);
            }
            i = i + 1;
        }
        None
    }
}

/// `s` without its run of trailing `c` characters.
pub open spec fn trim_trailing(s: Seq<char>, c: char) -> Seq<char>
    decreases s.len(),
{
    if s.len() > 0 && s.last() == c {
        trim_trailing(s.drop_last(), c)
    } else {
        s
    }
}

/// Where the metadata of `credential_issuer` is published: the issuer URL
/// without trailing slashes, followed by the well-known path.
pub open spec fn spec_metadata_url(credential_issuer: Seq<char>) -> Seq<char> {
    trim_trailing(credential_issuer, '/') + "/.well-known/openid-credential-issuer"@
}

/// The URL of the metadata document of `credential_issuer`.
pub fn metadata_url(credential_issuer: &str) -> (r: String)
    ensures
        r@ == spec_metadata_url(credential_issuer@),
{
    let cs = chars_of(credential_issuer);
    let mut end = cs.len();
    assert(cs@.take(end as int) =~= cs@);
    while end > 0 && cs[end - 1] == '/'
        invariant
            cs@ == credential_issuer@,
            end <= cs@.len(),
            trim_trailing(cs@, '/') == trim_trailing(cs@.take(end as int), '/'),
        decreases end,
    {
        proof {
            assert(cs@.take(end as int).drop_last() =~= cs@.take(end - 1));
        }
        end = end - 1;
    }
    proof {
        assert(trim_trailing(cs@.take(end as int), '/') == cs@.take(end as int));
    }
    let mut r = String::from_str(credential_issuer.substring_char(0, end));
    r.append("/.well-known/openid-credential-issuer");
    proof {
        assert(credential_issuer@.subrange(0, end as int) =~= cs@.take(end as int));
    }
    r
}

/// The metadata text of a response: the body of a 2xx response, a `Status`
/// error carrying status and body otherwise.
pub fn metadata_response_text(status: u16, body: String) -> (r: Result<String, MetadataError>)
    ensures
        match r {
            Ok(text) => is_success_status(status) && text@ == body@,
            Err(MetadataError::Status { status: s, body: b }) => !is_success_status(status) && s
                == status && b@ == body@,
            Err(_) => false,
        },
{
    if 200 <= status && status <= 299 {
        Ok(body)
    } else {
        Err(MetadataError::Status { status, body })
    }
}

/// A trailing slash on the issuer URL does not move its metadata document.
pub proof fn law_metadata_url_ignores_trailing_slash(credential_issuer: Seq<char>)
    ensures
        spec_metadata_url(credential_issuer.push('/')) == spec_metadata_url(credential_issuer),
{
    assert(credential_issuer.push('/').drop_last() =~= credential_issuer);
}

/// Trimming drops exactly the run of trailing `c`: what is left is a prefix
/// of the input not ending in `c`, and everything after it is `c`; the
/// metadata URL is that prefix followed by the well-known path.
pub proof fn law_trim_trailing(s: Seq<char>, c: char)
    ensures
        trim_trailing(s, c).len() <= s.len(),
        s.take(trim_trailing(s, c).len() as int) == trim_trailing(s, c),
        trim_trailing(s, c).len() > 0 ==> trim_trailing(s, c).last() != c,
        forall|i: int| trim_trailing(s, c).len() <= i < s.len() ==> #[trigger] s[i] == c,
        spec_metadata_url(s) == trim_trailing(s, '/') + "/.well-known/openid-credential-issuer"@,
    decreases s.len(),
{
    if s.len() > 0 && s.last() == c {
        law_trim_trailing(s.drop_last(), c);
        let r = trim_trailing(s, c);
        assert(s.take(r.len() as int) =~= s.drop_last().take(r.len() as int));
        assert forall|i: int| r.len() <= i < s.len() implies #[trigger] s[i] == c by {
            if i < s.len() - 1 {
                assert(s.drop_last()[i] == s[i]);
            }
        }
    } else {
        assert(s.take(s.len() as int) =~= s);
    }
}

} // verus!
