//! The owner-gated metadata URL: validation of the URL format and the
//! owner-only update operation.

use vstd::prelude::*;
use vstd::string::StringExecFns;

use crate::error::ContractError;
use crate::msg::Response;
use crate::state::State;

verus! {

/// Whether a string parses as a well-formed absolute URL. The grammar is
/// the url crate's; nothing is assumed of it beyond being a function of
/// the string alone.
pub uninterp spec fn url_well_formed(s: Seq<char>) -> bool;

/// Relies on url::Url::parse: whether a string parses as an absolute URL
/// is a function of the string alone.
#[verifier::external_body]
pub(crate) fn is_valid_url(url: &str) -> (r: bool)
    ensures
        r == url_well_formed(url@),
{
    url::Url::parse(url).is_ok()
}

/// What a metadata update guarantees: it succeeds exactly when the
/// sender is the owner and the URL is well formed, it then replaces only
/// the stored URL, and on failure nothing changes and the exact error is
/// reported.
pub open spec fn update_metadata_post(
    pre: State,
    post: State,
    sender: Seq<char>,
    metadata_url: String,
    r: Result<Response, ContractError>,
) -> bool {
    &&& post.inv()
    &&& post.token_info == pre.token_info
    &&& post.balances@ == pre.balances@
    &&& post.vesting@ == pre.vesting@
    &&& post.pool_release_schedule@ == pre.pool_release_schedule@
    &&& (r is Ok <==> sender == pre.token_info.owner@ && url_well_formed(metadata_url@))
    &&& r is Ok ==> post.metadata_url == metadata_url
    &&& r is Err ==> post.metadata_url == pre.metadata_url
    &&& sender != pre.token_info.owner@ ==> r == Err::<Response, ContractError>(
        ContractError::Unauthorized {},
    )
    &&& sender == pre.token_info.owner@ && !url_well_formed(metadata_url@) ==> r == Err::<
        Response,
        ContractError,
    >(ContractError::InvalidMetadata { url: metadata_url })
    &&& r matches Ok(resp) ==> {
        &&& resp.attributes@.len() == 2
        &&& resp.attributes@[0].0@ == "method"@ && resp.attributes@[0].1@ == "update_metadata"@
        &&& resp.attributes@[1].0@ == "metadata_url"@ && resp.attributes@[1].1@ == metadata_url@
    }
}

/// Replaces the stored metadata URL. Only the owner may do so, and only
/// with a well-formed URL; on failure nothing changes.
pub fn update_metadata(state: &mut State, sender: &String, metadata_url: String) -> (r: Result<
    Response,
    ContractError,
>)
    requires
        old(state).inv(),
    ensures
        update_metadata_post(*old(state), *final(state), sender@, metadata_url, r),
{
    if !(*sender == state.token_info.owner) {
        return Err(ContractError::Unauthorized {});
    }
    if !is_valid_url(metadata_url.as_str()) {
        return Err(ContractError::InvalidMetadata { url: metadata_url });
    }
    let resp = Response::new()
        .add_attribute("method", String::from_str("update_metadata"))
        .add_attribute("metadata_url", metadata_url.clone());
    state.metadata_url = metadata_url;
    Ok(resp)
}

} // verus!
