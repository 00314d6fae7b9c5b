//! Decoding of the buffered responses that list and describe models.

use vstd::prelude::*;
use crate::json::{json_of_bytes, parse_bytes, Json, JsonValue};
use crate::model::{Model, ModelDetails, ModelEntry, ModelInfo};

verus! {

/// The model entry an object stands for, if it has a string `name`, a
/// string `modified_at` and an unsigned `size`.
pub open spec fn model_of(value: JsonValue) -> Option<ModelEntry> {
    match (
        value.text_member("name"@),
        value.text_member("modified_at"@),
        value.unsigned_member("size"@),
    ) {
        (Some(name), Some(modified_at), Some(size)) => Some(
            ModelEntry { name, modified_at, size },
        ),
        _ => None,
    }
}

/// The model entries of a listing `{models: [...]}`, if the member is an
/// array and each element is a well-formed entry.
pub open spec fn models_of(value: JsonValue) -> Option<Seq<ModelEntry>> {
    match value.member("models"@) {
        Some(JsonValue::Array(items)) => if forall|i: int|
            0 <= i < items.len() ==> (#[trigger] model_of(items[i])).is_some() {
            Some(Seq::new(items.len(), |i: int| model_of(items[i]).unwrap()))
        } else {
            None
        },
        _ => None,
    }
}

/// The description an object stands for, if it has the four string members
/// `license`, `modelfile`, `parameters` and `template`.
pub open spec fn details_of(value: JsonValue) -> Option<ModelDetails> {
    match (
        value.text_member("license"@),
        value.text_member("modelfile"@),
        value.text_member("parameters"@),
        value.text_member("template"@),
    ) {
        (Some(license), Some(modelfile), Some(parameters), Some(template)) => Some(
            ModelDetails { license, modelfile, parameters, template },
        ),
        _ => None,
    }
}

/// The listing a response body stands for; nothing where it is not JSON.
pub open spec fn listing_of(parsed: Option<JsonValue>) -> Option<Seq<ModelEntry>> {
    match parsed {
        Some(v) => models_of(v),
        None => None,
    }
}

/// The description a response body stands for; nothing where it is not JSON.
pub open spec fn description_of(parsed: Option<JsonValue>) -> Option<ModelDetails> {
    match parsed {
        Some(v) => details_of(v),
        None => None,
    }
}

/// The views of model entries.
pub open spec fn models_view(models: Seq<Model>) -> Seq<ModelEntry> {
    Seq::new(models.len(), |i: int| models[i]@)
}

/// The views of model entries that may be absent.
pub open spec fn models_option(models: Option<Vec<Model>>) -> Option<Seq<ModelEntry>> {
    match models {
        Some(m) => Some(models_view(m@)),
        None => None,
    }
}

/// The view of a description that may be absent.
pub open spec fn info_option(info: Option<ModelInfo>) -> Option<ModelDetails> {
    match info {
        Some(i) => Some(i@),
        None => None,
    }
}

impl Model {
    /// Reads one entry of a model listing.
    pub fn from_json(value: &Json) -> (r: Option<Model>)
        ensures
            match r {
                Some(m) => model_of(value.deep()) == Some(m@),
                None => model_of(value.deep()).is_none(),
            },
    {
        let name = value.text_member("name");
        let modified_at = value.text_member("modified_at");
        let size = value.unsigned_member("size");
        match (name, modified_at, size) {
            (Some(name), Some(modified_at), Some(size)) => Some(Model { name, modified_at, size }),
            _ => None,
        }
    }
}

impl ModelInfo {
    /// Reads a model description.
    pub fn from_json(value: &Json) -> (r: Option<ModelInfo>)
        ensures
            info_option(r) == details_of(value.deep()),
    {
        let license = value.text_member("license");
        let modelfile = value.text_member("modelfile");
        let parameters = value.text_member("parameters");
        let template = value.text_member("template");
        match (license, modelfile, parameters, template) {
            (Some(license), Some(modelfile), Some(parameters), Some(template)) => Some(
                ModelInfo { license, modelfile, parameters, template },
            ),
            _ => None,
        }
    }
}

/// Reads a model listing from a parsed response.
pub fn models_from_json(value: &Json) -> (r: Option<Vec<Model>>)
    ensures
        models_option(r) == models_of(value.deep()),
{
    match value.get("models") {
        Some(Json::Array(items)) => {
            let ghost listed = value.deep().member("models"@).unwrap();
            let ghost model = listed->Array_0;
            let mut models: Vec<Model> = Vec::new();
            let mut i: usize = 0;
            assert(Json::Array(*items).deep() == listed);
            while i < items.len()
                invariant
                    0 <= i <= items.len(),
                    value.deep().member("models"@) == Some(JsonValue::Array(model)),
                    model.len() == items.len(),
                    forall|k: int| 0 <= k < items.len() ==> (#[trigger] model[k]) == items[k].deep(),
                    models.len() == i,
                    forall|k: int|
                        0 <= k < i ==> (#[trigger] model_of(model[k])) == Some(models[k]@),
                decreases items.len() - i,
            {
                assert(model[i as int] == items[i as int].deep());
                match Model::from_json(&items[i]) {
                    Some(entry) => {
                        models.push(entry);
                    },
                    None => {
                        return None;
                    },
                }
                i = i + 1;
            }
            assert(models_of(value.deep()).is_some());
            assert(models_view(models@) =~= models_of(value.deep()).unwrap());
            Some(models)
        },
        _ => None,
    }
}

/// Decodes the body of a model listing. Nothing comes back where the body
/// is not JSON or an entry lacks a member.
pub fn decode_model_list(body: &[u8]) -> (r: Option<Vec<Model>>)
    ensures
        models_option(r) == listing_of(json_of_bytes(body@)),
{
    match parse_bytes(body) {
        Some(json) => models_from_json(&json),
        None => None,
    }
}

/// Decodes the body of a model description. Nothing comes back where the
/// body is not JSON or lacks a member.
pub fn decode_model_info(body: &[u8]) -> (r: Option<ModelInfo>)
    ensures
        info_option(r) == description_of(json_of_bytes(body@)),
{
    match parse_bytes(body) {
        Some(json) => ModelInfo::from_json(&json),
        None => None,
    }
}

} // verus!
