//! The invoice-HTML artefact store.
//!
//! Rendered invoices are filed under
//! `invoices/<document_type>/<year>/<month>/<safe_number>.html`, where the
//! safe number is the invoice number with every `/` and `\` replaced by `-`.
//! The store models the directory tree as a path-to-content table; the host
//! shell mirrors it onto the filesystem under its data directory.

use vstd::prelude::*;

use crate::error::CmdError;
use crate::seqs::lemma_filter_take_step;
use crate::seqs::lemma_take_full;
use crate::strcmp::str_eq;

verus! {

/// One stored artefact: a relative path and the HTML filed under it.
#[derive(Debug, PartialEq)]
pub struct ArtefactFile {
    pub path: String,
    pub html: String,
}

impl Clone for ArtefactFile {
    fn clone(&self) -> (r: Self)
        ensures
            r == *self,
    {
        ArtefactFile { path: self.path.clone(), html: self.html.clone() }
    }
}

/// The artefact tree, as a table of files.
pub struct ArtefactStore {
    pub files: Vec<ArtefactFile>,
}

/// The content filed under a path, taking the latest entry when a path was
/// filed more than once.
pub open spec fn lookup(s: Seq<ArtefactFile>, p: Seq<char>) -> Option<Seq<char>>
    decreases s.len(),
{
    if s.len() == 0 {
        None
    } else if s.last().path@ == p {
        Some(s.last().html@)
    } else {
        lookup(s.drop_last(), p)
    }
}

/// A file whose path differs from `p`.
pub open spec fn af_path_not(p: Seq<char>) -> spec_fn(ArtefactFile) -> bool {
    |f: ArtefactFile| f.path@ != p
}

/// A character as it appears in a safe file name.
pub open spec fn safe_char(c: char) -> char {
    if c == '/' || c == '\\' {
        '-'
    } else {
        c
    }
}

/// The safe form of an invoice number: `/` and `\` become `-`.
pub open spec fn safe_name(s: Seq<char>) -> Seq<char> {
    s.map_values(|c: char| safe_char(c))
}

/// The relative path an artefact is filed under.
pub open spec fn artefact_path(
    document_type: Seq<char>,
    year: Seq<char>,
    month: Seq<char>,
    num: Seq<char>,
) -> Seq<char> {
    "invoices/"@ + document_type + "/"@ + year + "/"@ + month + "/"@ + safe_name(num) + ".html"@
}

/// Filing a new entry makes it the one looked up under its path.
pub proof fn lemma_lookup_push(s: Seq<ArtefactFile>, f: ArtefactFile, p: Seq<char>)
    ensures
        lookup(s.push(f), p) == (if f.path@ == p {
            Some(f.html@)
        } else {
            lookup(s, p)
        }),
{
    assert(s.push(f).drop_last() =~= s);
}

/// Removing every entry under a path makes the path empty.
pub proof fn lemma_lookup_filter_removed(s: Seq<ArtefactFile>, p: Seq<char>)
    ensures
        lookup(s.filter(af_path_not(p)), p) is None,
    decreases s.len(),
{
    reveal(Seq::filter);
    if s.len() != 0 {
        lemma_lookup_filter_removed(s.drop_last(), p);
        if af_path_not(p)(s.last()) {
            assert(s.filter(af_path_not(p)) == s.drop_last().filter(af_path_not(p)).push(s.last()));
            assert(s.filter(af_path_not(p)).drop_last() =~= s.drop_last().filter(af_path_not(p)));
        }
    }
}

/// Removing the entries under one path leaves every other path as it was.
pub proof fn lemma_lookup_filter_other(s: Seq<ArtefactFile>, p: Seq<char>, q: Seq<char>)
    requires
        q != p,
    ensures
        lookup(s.filter(af_path_not(p)), q) == lookup(s, q),
    decreases s.len(),
{
    reveal(Seq::filter);
    if s.len() != 0 {
        lemma_lookup_filter_other(s.drop_last(), p, q);
        if af_path_not(p)(s.last()) {
            assert(s.filter(af_path_not(p)) == s.drop_last().filter(af_path_not(p)).push(s.last()));
            assert(s.filter(af_path_not(p)).drop_last() =~= s.drop_last().filter(af_path_not(p)));
        }
    }
}

/// The round trip of the artefact tree: what `save` files under a path is
/// exactly what a later `load` of the same coordinates finds, and after
/// `delete` the path holds nothing, while every other path keeps its content.
pub proof fn lemma_artefact_round_trip(s: Seq<ArtefactFile>, f: ArtefactFile, q: Seq<char>)
    ensures
        lookup(s.filter(af_path_not(f.path@)).push(f), f.path@) == Some(f.html@),
        q != f.path@ ==> lookup(s.filter(af_path_not(f.path@)).push(f), q) == lookup(s, q),
        lookup(s.filter(af_path_not(f.path@)), f.path@) is None,
        q != f.path@ ==> lookup(s.filter(af_path_not(f.path@)), q) == lookup(s, q),
{
    lemma_lookup_push(s.filter(af_path_not(f.path@)), f, f.path@);
    lemma_lookup_filter_removed(s, f.path@);
    if q != f.path@ {
        lemma_lookup_push(s.filter(af_path_not(f.path@)), f, q);
        lemma_lookup_filter_other(s, f.path@, q);
    }
}

/// The safe form of an invoice number, computed character by character.
pub fn sanitize_number(num: &str) -> (r: String)
    ensures
        r@ == safe_name(num@),
{
    let n = num.unicode_len();
    let mut out = String::new();
    let mut i: usize = 0;
    while i < n
        invariant
            i <= n,
            n == num@.len(),
            out@ == safe_name(num@).take(i as int),
        decreases n - i,
    {
        let c = num.get_char(i);
        if c == '/' || c == '\\' {
            out.append("-");
            proof {
                reveal_strlit("-");
                assert(out@ =~= safe_name(num@).take(i as int).push(safe_char(num@[i as int])));
            }
        } else {
            let piece = num.substring_char(i, i + 1);
            assert(piece@ =~= seq![num@[i as int]]);
            out.append(piece);
            proof {
                assert(out@ =~= safe_name(num@).take(i as int).push(safe_char(num@[i as int])));
            }
        }
        proof {
            assert(safe_name(num@).take(i + 1) =~= safe_name(num@).take(i as int).push(
                safe_char(num@[i as int]),
            ));
        }
        i = i + 1;
    }
    proof {
        assert(safe_name(num@).take(n as int) =~= safe_name(num@));
    }
    out
}

/// The relative path for the given artefact coordinates.
pub fn artefact_rel_path(
    invoice_number: &str,
    document_type: &str,
    year: &str,
    month: &str,
) -> (r: String)
    ensures
        r@ == artefact_path(document_type@, year@, month@, invoice_number@),
{
    let mut out = String::new();
    out.append("invoices/");
    out.append(document_type);
    out.append("/");
    out.append(year);
    out.append("/");
    out.append(month);
    out.append("/");
    let safe = sanitize_number(invoice_number);
    out.append(safe.as_str());
    out.append(".html");
    out
}

impl ArtefactStore {
    /// An empty artefact tree.
    pub fn new() -> (s: ArtefactStore)
        ensures
            s.files@.len() == 0,
    {
        ArtefactStore { files: Vec::new() }
    }

    /// Files the HTML of one invoice, replacing any earlier content under the
    /// same path, and hands back the relative path it was filed under.
    pub fn save_invoice_html(
        &mut self,
        invoice_number: &str,
        document_type: &str,
        year: &str,
        month: &str,
        html_content: String,
    ) -> (r: String)
        ensures
            r@ == artefact_path(document_type@, year@, month@, invoice_number@),
            lookup(final(self).files@, r@) == Some(html_content@),
            forall|q: Seq<char>|
                q != artefact_path(document_type@, year@, month@, invoice_number@) ==> lookup(
                    final(self).files@,
                    q,
                ) == lookup(old(self).files@, q),
    {
        let path = artefact_rel_path(invoice_number, document_type, year, month);
        let n = self.files.len();
        let mut kept: Vec<ArtefactFile> = Vec::new();
        let mut i: usize = 0;
        while i < n
            invariant
                i <= n,
                n == self.files@.len(),
                kept@ == self.files@.take(i as int).filter(af_path_not(path@)),
            decreases n - i,
        {
            let row = &self.files[i];
            proof {
                lemma_filter_take_step(self.files@, af_path_not(path@), i as int);
            }
            if !str_eq(row.path.as_str(), path.as_str()) {
                kept.push(row.clone());
            }
            i = i + 1;
        }
        proof {
            lemma_take_full(self.files@);
        }
        let file = ArtefactFile { path: path.clone(), html: html_content };
        proof {
            let s = old(self).files@;
            assert forall|q: Seq<char>| true implies lookup(
                s.filter(af_path_not(path@)).push(file),
                q,
            ) == (if q == path@ {
                Some(file.html@)
            } else {
                lookup(s, q)
            }) by {
                lemma_artefact_round_trip(s, file, q);
            }
        }
        kept.push(file);
        self.files = kept;
        path
    }

    /// Loads the HTML filed under the given coordinates; an absent file is
    /// not found.
    pub fn load_invoice_html(
        &self,
        invoice_number: &str,
        document_type: &str,
        year: &str,
        month: &str,
    ) -> (r: Result<String, CmdError>)
        ensures
            match lookup(
                self.files@,
                artefact_path(document_type@, year@, month@, invoice_number@),
            ) {
                Some(h) => r matches Ok(s) && s@ == h,
                None => r == Err::<String, CmdError>(CmdError::NotFound),
            },
    {
        let path = artefact_rel_path(invoice_number, document_type, year, month);
        let mut i: usize = self.files.len();
        proof {
            lemma_take_full(self.files@);
        }
        while i > 0
            invariant
                i <= self.files@.len(),
                path@ == artefact_path(document_type@, year@, month@, invoice_number@),
                lookup(self.files@, path@) == lookup(self.files@.take(i as int), path@),
            decreases i,
        {
            i = i - 1;
            let row = &self.files[i];
            assert(self.files@.take(i + 1).last() == self.files@[i as int]);
            if str_eq(row.path.as_str(), path.as_str()) {
                proof {
                    assert(self.files@.take(i + 1).len() != 0);
                    assert(lookup(self.files@.take(i + 1), path@) == Some(
                        self.files@[i as int].html@,
                    ));
                }
                return Ok(row.html.clone());
            }
            proof {
                assert(self.files@.take(i + 1).drop_last() =~= self.files@.take(i as int));
            }
        }
        Err(CmdError::NotFound)
    }

    /// Deletes the HTML filed under the given coordinates; an absent file is
    /// a successful no-op.
    pub fn delete_invoice_html(
        &mut self,
        invoice_number: &str,
        document_type: &str,
        year: &str,
        month: &str,
    ) -> (r: Result<(), CmdError>)
        ensures
            r is Ok,
            lookup(
                final(self).files@,
                artefact_path(document_type@, year@, month@, invoice_number@),
            ) is None,
            forall|q: Seq<char>|
                q != artefact_path(document_type@, year@, month@, invoice_number@) ==> lookup(
                    final(self).files@,
                    q,
                ) == lookup(old(self).files@, q),
    {
        let path = artefact_rel_path(invoice_number, document_type, year, month);
        let n = self.files.len();
        let mut kept: Vec<ArtefactFile> = Vec::new();
        let mut i: usize = 0;
        while i < n
            invariant
                i <= n,
                n == self.files@.len(),
                kept@ == self.files@.take(i as int).filter(af_path_not(path@)),
            decreases n - i,
        {
            let row = &self.files[i];
            proof {
                lemma_filter_take_step(self.files@, af_path_not(path@), i as int);
            }
            if !str_eq(row.path.as_str(), path.as_str()) {
                kept.push(row.clone());
            }
            i = i + 1;
        }
        proof {
            lemma_take_full(self.files@);
            lemma_lookup_filter_removed(old(self).files@, path@);
            assert forall|q: Seq<char>| q != path@ implies lookup(
                old(self).files@.filter(af_path_not(path@)),
                q,
            ) == lookup(old(self).files@, q) by {
                lemma_lookup_filter_other(old(self).files@, path@, q);
            }
        }
        self.files = kept;
        Ok(())
    }
}

} // verus!
