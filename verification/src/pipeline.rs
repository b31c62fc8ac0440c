//! The three pipelines: ingestion (validate, persist, return a receipt),
//! retrieval (fetch, canonicalize the filename, resolve dimensions, render)
//! and deletion.  Each is specified against the store's row-sequence model.

use vstd::prelude::*;
use crate::html::{b64_of, build_html, canonical_url, html_of, url_of};
use crate::ids::{generate_id, valid_id};
use crate::mime::{ext_of, extension_of, is_image_mime, is_image_mimetype, sniff_mimetype};
use crate::size::{opt_view, resolve_dimensions, resolve_spec};
use crate::store::{
    lemma_wf_push, lemma_wf_remove, lookup, remove_row, rows_wf, ImageRow, ImageStore, RowModel,
};
use crate::strutil::{prefix_upto, split_before, str_eq};

verus! {

/// Why an upload was refused.
#[derive(Debug, Clone, Copy, PartialEq, Eq, Structural)]
pub enum IngestError {
    /// The uploaded payload was empty.
    EmptyUpload,
    /// The sniffed mimetype does not start with `image/`.
    NotAnImage,
    /// The store refused the insert (a latent duplicate id included).
    StorageFailure,
}

/// What a successful upload returns: the public id and the canonical URL.
pub struct IngestReceipt {
    pub id: String,
    pub url: String,
}

/// A raw-image response: the bytes, the HTML wrapper, and the mimetype.
#[derive(Debug)]
pub struct ImageResponse(pub Vec<u8>, pub String, pub String);

/// What retrieval yields.
#[derive(Debug)]
pub enum RetrievalOutcome {
    /// The image under its canonical filename, with its HTML wrapper.
    Found(ImageResponse),
    /// The canonical path to redirect a non-canonical filename to.
    RedirectTo(String),
    /// No such image, or its dimensions could not be resolved.
    NotFound(String),
}

/// Model of a retrieval outcome: found bytes, wrapper and mimetype; or a
/// redirect path; or a not-found message.
pub enum OutcomeModel {
    Found(Seq<u8>, Seq<char>, Seq<char>),
    Redirect(Seq<char>),
    Missing(Seq<char>),
}

impl View for RetrievalOutcome {
    type V = OutcomeModel;

    open spec fn view(&self) -> OutcomeModel {
        match self {
            RetrievalOutcome::Found(resp) => OutcomeModel::Found(resp.0@, resp.1@, resp.2@),
            RetrievalOutcome::RedirectTo(path) => OutcomeModel::Redirect(path@),
            RetrievalOutcome::NotFound(msg) => OutcomeModel::Missing(msg@),
        }
    }
}

/// The message given for an unknown filename.
pub open spec fn missing_msg_of(filename: Seq<char>) -> Seq<char> {
    "Image with name `"@ + filename + "` could not be found."@
}

/// The message given when dimensions cannot be resolved.
pub open spec fn dim_msg_of(filename: Seq<char>) -> Seq<char> {
    "Failed to get image dimensions of `"@ + filename + "`."@
}

/// Meaning of retrieval: split the filename at the first dot, look the key
/// up, canonicalize, resolve dimensions, render.
pub open spec fn retrieve_spec(
    rows: Seq<RowModel>,
    filename: Seq<char>,
    size_param: Option<Seq<char>>,
) -> OutcomeModel {
    let key = prefix_upto(filename, '.');
    match lookup(rows, key) {
        None => OutcomeModel::Missing(missing_msg_of(filename)),
        Some(row) => {
            let canonical = key + "."@ + ext_of(row.mimetype);
            if filename != canonical {
                OutcomeModel::Redirect("/gallery/"@ + canonical)
            } else {
                match resolve_spec(size_param, row.bytes) {
                    Ok(d) => OutcomeModel::Found(
                        row.bytes,
                        html_of(row.mimetype, b64_of(row.bytes), d.0, d.1),
                        row.mimetype,
                    ),
                    Err(_) => OutcomeModel::Missing(dim_msg_of(filename)),
                }
            }
        }
    }
}

/// An owned copy of a byte vector.
fn clone_bytes(v: &Vec<u8>) -> (r: Vec<u8>)
    ensures
        r@ == v@,
{
    let n: usize = v.len();
    let mut r: Vec<u8> = Vec::new();
    let mut i: usize = 0;
    while i < n
        invariant
            n == v@.len(),
            i <= n,
            r@ == v@.subrange(0, i as int),
        decreases n - i,
    {
        r.push(v[i]);
        proof {
            assert(r@ =~= v@.subrange(0, i as int + 1));
        }
        i = i + 1;
    }
    proof {
        assert(r@ =~= v@);
    }
    r
}

/// Retrieve an image by requested filename: the part before the first dot
/// is the lookup key; a non-canonical filename redirects; otherwise the
/// image is rendered at its resolved dimensions.
pub fn retrieve(
    store: &ImageStore,
    requested_filename: &str,
    size_param: Option<String>,
) -> (r: RetrievalOutcome)
    ensures
        r@ == retrieve_spec(store@, requested_filename@, opt_view(&size_param)),
{
    let key: String = split_before(requested_filename, '.');
    match store.fetch(key.as_str()) {
        None => {
            let m: String = String::from_str("Image with name `");
            let m: String = m.concat(requested_filename);
            let m: String = m.concat("` could not be found.");
            RetrievalOutcome::NotFound(m)
        }
        Some(row) => {
            let ext: String = extension_of(row.mimetype.as_str());
            let canonical: String = key.concat(".").concat(ext.as_str());
            if !str_eq(requested_filename, canonical.as_str()) {
                let p: String = String::from_str("/gallery/");
                let p: String = p.concat(canonical.as_str());
                RetrievalOutcome::RedirectTo(p)
            } else {
                match resolve_dimensions(&size_param, &row.bytes) {
                    Ok((w, h)) => {
                        let html: String = build_html(row.mimetype.as_str(), &row.bytes, w, h);
                        let bytes: Vec<u8> = clone_bytes(&row.bytes);
                        let mimetype: String = row.mimetype.clone();
                        RetrievalOutcome::Found(ImageResponse(bytes, html, mimetype))
                    }
                    Err(_) => {
                        let m: String = String::from_str("Failed to get image dimensions of `");
                        let m: String = m.concat(requested_filename);
                        let m: String = m.concat("`.");
                        RetrievalOutcome::NotFound(m)
                    }
                }
            }
        }
    }
}

/// Ingest a payload whose mimetype has already been sniffed, under a
/// chosen id.  Empty payloads and non-image types are refused; a duplicate
/// id is a storage failure; otherwise the row is persisted and the receipt
/// carries the id and its canonical URL.
pub fn ingest_sniffed(
    store: &mut ImageStore,
    upload_bytes: Vec<u8>,
    mimetype: String,
    id: String,
) -> (r: Result<IngestReceipt, IngestError>)
    requires
        rows_wf(old(store)@),
        valid_id(id@),
    ensures
        rows_wf(final(store)@),
        r.is_err() ==> final(store)@ == old(store)@,
        (r == Err::<IngestReceipt, IngestError>(IngestError::EmptyUpload)) <==> upload_bytes@.len()
            == 0,
        upload_bytes@.len() > 0 && !is_image_mime(mimetype@) ==> r == Err::<
            IngestReceipt,
            IngestError,
        >(IngestError::NotAnImage),
        upload_bytes@.len() > 0 && is_image_mime(mimetype@) && lookup(old(store)@, id@).is_some()
            ==> r == Err::<IngestReceipt, IngestError>(IngestError::StorageFailure),
        upload_bytes@.len() > 0 && is_image_mime(mimetype@) && lookup(old(store)@, id@).is_none()
            ==> (r matches Ok(rec) && rec.id@ == id@ && rec.url@ == url_of(
            id@,
            ext_of(mimetype@),
        ) && final(store)@ == old(store)@.push(
            RowModel { id: id@, bytes: upload_bytes@, mimetype: mimetype@ },
        )),
{
    if upload_bytes.len() == 0 {
        return Err(IngestError::EmptyUpload);
    }
    if !is_image_mimetype(mimetype.as_str()) {
        return Err(IngestError::NotAnImage);
    }
    let ext: String = extension_of(mimetype.as_str());
    let url: String = canonical_url(id.as_str(), ext.as_str());
    let row = ImageRow { id: id.clone(), bytes: upload_bytes, mimetype };
    proof {
        if lookup(store@, row@.id).is_none() {
            lemma_wf_push(store@, row@);
        }
    }
    if store.insert(row) {
        Ok(IngestReceipt { id, url })
    } else {
        Err(IngestError::StorageFailure)
    }
}

/// Ingest a raw upload: sniff its mimetype from the bytes, validate it,
/// draw a fresh id, and persist.  Whatever the sniffer and the id
/// generator return, an empty upload is refused as such, a failure leaves
/// the store unchanged, and a success appends exactly one valid row whose
/// bytes are the upload's.
pub fn ingest(store: &mut ImageStore, upload_bytes: Vec<u8>) -> (r: Result<
    IngestReceipt,
    IngestError,
>)
    requires
        rows_wf(old(store)@),
    ensures
        rows_wf(final(store)@),
        r.is_err() ==> final(store)@ == old(store)@,
        (r == Err::<IngestReceipt, IngestError>(IngestError::EmptyUpload)) <==> upload_bytes@.len()
            == 0,
        r matches Ok(rec) ==> valid_id(rec.id@) && exists|m: Seq<char>|
            is_image_mime(m) && rec.url@ == url_of(rec.id@, #[trigger] ext_of(m))
                && final(store)@ == old(store)@.push(
                RowModel { id: rec.id@, bytes: upload_bytes@, mimetype: m },
            ),
{
    if upload_bytes.len() == 0 {
        return Err(IngestError::EmptyUpload);
    }
    let mimetype: String = sniff_mimetype(&upload_bytes);
    let id: String = generate_id();
    ingest_sniffed(store, upload_bytes, mimetype, id)
}

/// Delete an image: the part of the argument before the first dot is the
/// key; deleting a missing key is not distinguished from success.  Returns
/// the key that was deleted.
pub fn delete(store: &mut ImageStore, requested_id: &str) -> (r: String)
    requires
        rows_wf(old(store)@),
    ensures
        rows_wf(final(store)@),
        final(store)@ == remove_row(old(store)@, prefix_upto(requested_id@, '.')),
        r@ == prefix_upto(requested_id@, '.'),
{
    let key: String = split_before(requested_id, '.');
    proof {
        lemma_wf_remove(store@, key@);
    }
    store.delete(key.as_str());
    key
}

} // verus!
