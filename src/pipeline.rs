//! The decisions of the download of a catalog's images: which file each record
//! goes to, which address it is fetched from, when it is skipped, and the
//! manifest line that records it. The caller does the fetching and writing.

use vstd::prelude::*;
use crate::catalog::records_view;
use crate::text::{replace_all, replaced};

verus! {

/// The name of the image file of `id`.
pub open spec fn file_name(id: Seq<char>) -> Seq<char> {
    id + ".png"@
}

/// The address of the image `id`: both placeholders of the template set to it.
pub open spec fn image_url(template: Seq<char>, id: Seq<char>) -> Seq<char> {
    replaced(replaced(template, "{image_id}"@, id), "{{id}}"@, id)
}

/// The manifest line of a new image: `<id>.png = "<name>"` and a line break.
pub open spec fn manifest_line(id: Seq<char>, name: Seq<char>) -> Seq<char> {
    id + ".png = \""@ + name + "\"\n"@
}

/// What a whole download of `recs` does when every fetch succeeds, starting
/// from the files in `present`: the addresses fetched, the manifest lines
/// written, and the files present afterwards.
pub open spec fn run(
    template: Seq<char>,
    recs: Seq<(Seq<char>, Seq<char>)>,
    present: Set<Seq<char>>,
) -> (Seq<Seq<char>>, Seq<Seq<char>>, Set<Seq<char>>)
    decreases recs.len(),
{
    if recs.len() == 0 {
        (Seq::empty(), Seq::empty(), present)
    } else {
        let (name, id) = recs[0];
        if present.contains(file_name(id)) {
            run(template, recs.drop_first(), present)
        } else {
            let (u, l, p) = run(template, recs.drop_first(), present.insert(file_name(id)));
            (seq![image_url(template, id)] + u, seq![manifest_line(id, name)] + l, p)
        }
    }
}

proof fn lemma_run_covers(
    template: Seq<char>,
    recs: Seq<(Seq<char>, Seq<char>)>,
    present: Set<Seq<char>>,
)
    ensures
        run(template, recs, present).0.len() == run(template, recs, present).1.len(),
        present.subset_of(run(template, recs, present).2),
        forall|i: int|
            0 <= i < recs.len() ==> run(template, recs, present).2.contains(
                #[trigger] file_name(recs[i].1),
            ),
    decreases recs.len(),
{
    if recs.len() > 0 {
        let id = recs[0].1;
        let p = if present.contains(file_name(id)) {
            present
        } else {
            present.insert(file_name(id))
        };
        lemma_run_covers(template, recs.drop_first(), p);
        assert forall|i: int| 0 <= i < recs.len() implies run(template, recs, present).2.contains(
            #[trigger] file_name(recs[i].1),
        ) by {
            if i > 0 {
                assert(recs[i] == recs.drop_first()[i - 1]);
            }
        }
    }
}

proof fn lemma_run_over_present(
    template: Seq<char>,
    recs: Seq<(Seq<char>, Seq<char>)>,
    present: Set<Seq<char>>,
)
    requires
        forall|i: int| 0 <= i < recs.len() ==> present.contains(#[trigger] file_name(recs[i].1)),
    ensures
        run(template, recs, present) == (Seq::<Seq<char>>::empty(), Seq::<Seq<char>>::empty(), present),
    decreases recs.len(),
{
    if recs.len() > 0 {
        assert(present.contains(file_name(recs[0].1)));
        assert forall|i: int| 0 <= i < recs.drop_first().len() implies present.contains(
            #[trigger] file_name(recs.drop_first()[i].1),
        ) by {
            assert(recs.drop_first()[i] == recs[i + 1]);
        }
        lemma_run_over_present(template, recs.drop_first(), present);
    }
}

/// A download writes one manifest line per image it fetches; run again over
/// the files that it left, with the same records, it fetches nothing and
/// writes no line.
pub proof fn lemma_second_run_fetches_nothing(
    template: Seq<char>,
    recs: Seq<(Seq<char>, Seq<char>)>,
    present: Set<Seq<char>>,
)
    ensures
        run(template, recs, present).0.len() == run(template, recs, present).1.len(),
        run(template, recs, run(template, recs, present).2).0.len() == 0,
        run(template, recs, run(template, recs, present).2).1.len() == 0,
{
    lemma_run_covers(template, recs, present);
    lemma_run_over_present(template, recs, run(template, recs, present).2);
}

/// One step of a batch follows `run`: a record whose file is in `present` is
/// passed over, and one whose file is not is fetched from the address that
/// `decide` gives and recorded by the line that `finish` gives, its file then
/// counting as present.
pub proof fn lemma_batch_step_follows_run(
    before: DownloadBatch,
    after: DownloadBatch,
    present: Set<Seq<char>>,
)
    requires
        before.wf(),
        !before.done(),
        after.template == before.template,
        after.records == before.records,
        after.next == before.next + 1,
    ensures
        ({
            let (name, id) = before.records@[before.next as int];
            if present.contains(file_name(id@)) {
                before.rest_run(present) == after.rest_run(present)
            } else {
                let r = after.rest_run(present.insert(file_name(id@)));
                before.rest_run(present) == (
                    seq![image_url(before.template@, id@)] + r.0,
                    seq![manifest_line(id@, name@)] + r.1,
                    r.2,
                )
            }
        }),
{
    let recs = records_view(before.records@);
    let n = before.next as int;
    assert(recs.skip(n).drop_first() =~= recs.skip(n + 1));
    assert(recs.skip(n)[0] == recs[n]);
}

/// Names the image file of `id`.
pub fn image_file_name(id: &str) -> (r: String)
    ensures
        r@ == file_name(id@),
{
    String::from_str(id).concat(".png")
}

/// Forms the address of the image `id` from a template.
pub fn image_url_of(template: &str, id: &str) -> (r: String)
    ensures
        r@ == image_url(template@, id@),
{
    proof {
        reveal_strlit("{image_id}");
        reveal_strlit("{{id}}");
    }
    let first = replace_all(template, "{image_id}", id);
    replace_all(first.as_str(), "{{id}}", id)
}

/// Writes the manifest line of a new image.
pub fn manifest_line_of(id: &str, name: &str) -> (r: String)
    ensures
        r@ == manifest_line(id@, name@),
{
    let r = String::from_str(id).concat(".png = \"").concat(name).concat("\"\n");
    assert(r@ =~= manifest_line(id@, name@));
    r
}

/// An image to fetch: the file it goes to and the address it comes from.
pub struct Download {
    pub file_name: String,
    pub url: String,
}

/// The download of one catalog, record by record, in order.
pub struct DownloadBatch {
    pub template: String,
    pub records: Vec<(String, String)>,
    /// The position of the record at hand.
    pub next: usize,
    /// How many images were saved so far.
    pub saved: usize,
}

impl DownloadBatch {
    /// The position stays within the records, and the images saved are at
    /// most the records passed.
    pub open spec fn wf(&self) -> bool {
        self.saved <= self.next <= self.records@.len()
    }

    /// Whether every record was dealt with.
    pub open spec fn done(&self) -> bool {
        self.next >= self.records@.len()
    }

    /// What the rest of the batch does over the files in `present`, when every
    /// fetch succeeds.
    pub open spec fn rest_run(&self, present: Set<Seq<char>>) -> (
        Seq<Seq<char>>,
        Seq<Seq<char>>,
        Set<Seq<char>>,
    ) {
        run(self.template@, records_view(self.records@).skip(self.next as int), present)
    }

    /// Starts the download of `records`, taking them out of the catalog, which
    /// is left empty.
    pub fn new(template: &String, records: &mut Vec<(String, String)>) -> (r: DownloadBatch)
        ensures
            r.wf(),
            r.template == *template,
            r.records == *old(records),
            r.next == 0,
            r.saved == 0,
            final(records)@.len() == 0,
    {
        let mut taken: Vec<(String, String)> = Vec::new();
        std::mem::swap(records, &mut taken);
        DownloadBatch { template: template.clone(), records: taken, next: 0, saved: 0 }
    }

    /// Whether every record was dealt with.
    pub fn is_done(&self) -> (r: bool)
        ensures
            r == self.done(),
    {
        self.next >= self.records.len()
    }

    /// The image file of the record at hand.
    pub fn current_file(&self) -> (r: String)
        requires
            self.wf(),
            !self.done(),
        ensures
            r@ == file_name(self.records@[self.next as int].1@),
    {
        image_file_name(self.records[self.next].1.as_str())
    }

    /// Decides on the record at hand, given whether its file exists already.
    /// An existing file is never fetched again: the record is passed over,
    /// with no fetch and no manifest line. Otherwise the image is to be
    /// fetched, and `finish` is to be called with the outcome.
    pub fn decide(&mut self, file_exists: bool) -> (r: Option<Download>)
        requires
            old(self).wf(),
            !old(self).done(),
        ensures
            final(self).wf(),
            final(self).template == old(self).template,
            final(self).records == old(self).records,
            final(self).saved == old(self).saved,
            file_exists ==> r is None && final(self).next == old(self).next + 1,
            !file_exists ==> {
                let id = old(self).records@[old(self).next as int].1@;
                &&& r is Some
                &&& r->Some_0.file_name@ == file_name(id)
                &&& r->Some_0.url@ == image_url(old(self).template@, id)
                &&& final(self).next == old(self).next
            },
    {
        if file_exists {
            let total = self.records.len();
            assert(self.next < total);
            self.next = self.next + 1;
            None
        } else {
            let id = self.records[self.next].1.as_str();
            Some(Download { file_name: image_file_name(id), url: image_url_of(self.template.as_str(), id) })
        }
    }

    /// Closes the record at hand after its fetch: a saved image is counted and
    /// gets its manifest line; a failed one gets neither.
    pub fn finish(&mut self, saved: bool) -> (r: Option<String>)
        requires
            old(self).wf(),
            !old(self).done(),
        ensures
            final(self).wf(),
            final(self).template == old(self).template,
            final(self).records == old(self).records,
            final(self).next == old(self).next + 1,
            saved ==> {
                let (name, id) = old(self).records@[old(self).next as int];
                &&& r is Some
                &&& r->Some_0@ == manifest_line(id@, name@)
                &&& final(self).saved == old(self).saved + 1
            },
            !saved ==> r is None && final(self).saved == old(self).saved,
    {
        let i = self.next;
        let total = self.records.len();
        assert(i < total);
        self.next = i + 1;
        if saved {
            self.saved = self.saved + 1;
            Some(manifest_line_of(self.records[i].1.as_str(), self.records[i].0.as_str()))
        } else {
            None
        }
    }
}

} // verus!
