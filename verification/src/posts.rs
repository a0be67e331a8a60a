//! Data model of the site builder's input: content files, their front
//! matter, and the lightweight previews the pages embed.
//!
//! The builder itself — reading the content directory, parsing front
//! matter, rendering markdown to HTML and templating pages — runs outside
//! this crate and fills these types with plain values.

use vstd::prelude::*;

verus! {

/// A post's front matter.
pub struct PostData {
    pub author: String,
    pub title: String,
    pub tags: Vec<String>,
    pub date: String,
    pub description: String,
}

/// One file read from the content directory.
pub struct File {
    pub file_name: String,
    pub stem: String,
    pub ext: String,
    pub file_data: Vec<u8>,
}

impl File {
    /// Bundles a content file's name parts and raw bytes.
    pub fn new(file_name: String, stem: String, ext: String, file_data: Vec<u8>) -> (r: File)
        ensures
            r.file_name@ == file_name@,
            r.stem@ == stem@,
            r.ext@ == ext@,
            r.file_data@ == file_data@,
    {
        File { file_name, stem, ext, file_data }
    }
}

/// A content file together with its parsed front matter and the markdown
/// body that remains once the front matter is stripped.
pub struct Post {
    pub id: u32,
    pub file_data: File,
    pub data: PostData,
    pub content: String,
}

/// What a page needs to know about every other post: enough to link to it
/// and describe it, without carrying its body around.
pub struct PostPreview {
    pub id: u32,
    pub resource: String,
    pub title: String,
    pub description: String,
    pub tags: Vec<String>,
    pub date: String,
}

impl Post {
    /// Bundles a parsed post under its identifier.
    pub fn new(id: u32, file: File, data: PostData, content: String) -> (r: Post)
        ensures
            r.id == id,
            r.file_data == file,
            r.data == data,
            r.content@ == content@,
    {
        Post { id, file_data: file, data, content }
    }

    /// The post's preview: its identifier, the file it is served from, and
    /// the front matter fields a listing shows.
    pub fn to_preview(&self) -> (r: PostPreview)
        ensures
            r.id == self.id,
            r.resource@ == self.file_data.file_name@,
            r.title@ == self.data.title@,
            r.description@ == self.data.description@,
            r.tags@.len() == self.data.tags@.len(),
            forall|i: int| 0 <= i < r.tags@.len() ==> r.tags@[i]@ == self.data.tags@[i]@,
            r.date@ == self.data.date@,
    {
        PostPreview {
            id: self.id,
            resource: self.file_data.file_name.clone(),
            title: self.data.title.clone(),
            tags: clone_strings(&self.data.tags),
            date: self.data.date.clone(),
            description: self.data.description.clone(),
        }
    }
}

fn clone_strings(v: &Vec<String>) -> (r: Vec<String>)
    ensures
        r@.len() == v@.len(),
        forall|i: int| 0 <= i < v@.len() ==> r@[i]@ == v@[i]@,
{
    let mut r: Vec<String> = Vec::new();
    let mut i: usize = 0;
    while i < v.len()
        invariant
            i <= v@.len(),
            r@.len() == i,
            forall|k: int| 0 <= k < i ==> r@[k]@ == v@[k]@,
        decreases v@.len() - i,
    {
        r.push(v[i].clone());
        i = i + 1;
    }
    r
}

/// Whether some listed string reads `t`.
pub open spec fn tag_listed(r: Seq<String>, t: Seq<char>) -> bool {
    exists|k: int| 0 <= k < r.len() && #[trigger] r[k]@ == t
}

/// Whether any preview carries the tag `t`.
pub open spec fn tag_in_previews(ps: Seq<PostPreview>, t: Seq<char>) -> bool {
    exists|i: int, j: int|
        0 <= i < ps.len() && 0 <= j < ps[i].tags@.len() && #[trigger] ps[i].tags@[j]@ == t
}

fn contains_string(v: &Vec<String>, s: &String) -> (r: bool)
    ensures
        r == tag_listed(v@, s@),
{
    let mut i: usize = 0;
    while i < v.len()
        invariant
            i <= v@.len(),
            forall|k: int| 0 <= k < i ==> #[trigger] v@[k]@ != s@,
        decreases v@.len() - i,
    {
        if v[i] == *s {
            return true;
        }
        i = i + 1;
    }
    false
}

/// Gathers the tag set of all previews: every tag that any preview
/// carries, each exactly once. The order is left open.
pub fn collect_tags(previews: &Vec<PostPreview>) -> (r: Vec<String>)
    ensures
        forall|a: int, b: int| 0 <= a < b < r@.len() ==> r@[a]@ != r@[b]@,
        forall|k: int| 0 <= k < r@.len() ==> tag_in_previews(previews@, #[trigger] r@[k]@),
        forall|i: int, j: int|
            0 <= i < previews@.len() && 0 <= j < previews@[i].tags@.len() ==> tag_listed(
                r@,
                #[trigger] previews@[i].tags@[j]@,
            ),
{
    let mut r: Vec<String> = Vec::new();
    let mut i: usize = 0;
    while i < previews.len()
        invariant
            i <= previews@.len(),
            forall|a: int, b: int| 0 <= a < b < r@.len() ==> r@[a]@ != r@[b]@,
            forall|k: int| 0 <= k < r@.len() ==> tag_in_previews(previews@, #[trigger] r@[k]@),
            forall|p: int, j: int|
                0 <= p < i && 0 <= j < previews@[p].tags@.len() ==> tag_listed(
                    r@,
                    #[trigger] previews@[p].tags@[j]@,
                ),
        decreases previews@.len() - i,
    {
        let tags = &previews[i].tags;
        let mut j: usize = 0;
        while j < tags.len()
            invariant
                i < previews@.len(),
                j <= tags@.len(),
                tags@ == previews@[i as int].tags@,
                forall|a: int, b: int| 0 <= a < b < r@.len() ==> r@[a]@ != r@[b]@,
                forall|k: int| 0 <= k < r@.len() ==> tag_in_previews(previews@, #[trigger] r@[k]@),
                forall|p: int, q: int|
                    0 <= p < i && 0 <= q < previews@[p].tags@.len() ==> tag_listed(
                        r@,
                        #[trigger] previews@[p].tags@[q]@,
                    ),
                forall|q: int| 0 <= q < j ==> tag_listed(r@, #[trigger] tags@[q]@),
            decreases tags@.len() - j,
        {
            let t = &tags[j];
            if !contains_string(&r, t) {
                let ghost r0 = r@;
                r.push(t.clone());
                proof {
                    assert(r@[r0.len() as int]@ == tags@[j as int]@);
                    assert(tag_in_previews(previews@, r@[r0.len() as int]@));
                    assert forall|k: int| 0 <= k < r@.len() implies tag_in_previews(
                        previews@,
                        #[trigger] r@[k]@,
                    ) by {
                        if k < r0.len() {
                            assert(r@[k] == r0[k]);
                        }
                    }
                    assert forall|q: int| 0 <= q < j + 1 implies tag_listed(
                        r@,
                        #[trigger] tags@[q]@,
                    ) by {
                        if q < j {
                            let k = choose|k: int| 0 <= k < r0.len() && #[trigger] r0[k]@
                                == tags@[q]@;
                            assert(r@[k]@ == tags@[q]@);
                        } else {
                            assert(r@[r0.len() as int]@ == tags@[q]@);
                        }
                    }
                    assert forall|p: int, q: int|
                        0 <= p < i && 0 <= q < previews@[p].tags@.len() implies tag_listed(
                        r@,
                        #[trigger] previews@[p].tags@[q]@,
                    ) by {
                        let k = choose|k: int| 0 <= k < r0.len() && #[trigger] r0[k]@
                            == previews@[p].tags@[q]@;
                        assert(r@[k]@ == previews@[p].tags@[q]@);
                    }
                }
            }
            j = j + 1;
        }
        i = i + 1;
    }
    r
}

} // verus!
