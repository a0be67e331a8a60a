use blog::posts::{collect_tags, File, Post, PostData};

fn sample_post(id: u32, name: &str, tags: &[&str]) -> Post {
    let file = File::new(
        format!("{name}.md"),
        name.to_string(),
        "md".to_string(),
        b"# body".to_vec(),
    );
    let data = PostData {
        author: "zg".to_string(),
        title: format!("Title of {name}"),
        tags: tags.iter().map(|t| t.to_string()).collect(),
        date: "2024-01-02".to_string(),
        description: format!("About {name}"),
    };
    Post::new(id, file, data, "# body".to_string())
}

#[test]
fn file_new_keeps_its_parts() {
    let f = File::new(
        "sample.md".to_string(),
        "sample".to_string(),
        "md".to_string(),
        vec![1, 2, 3],
    );
    assert_eq!(f.file_name, "sample.md");
    assert_eq!(f.stem, "sample");
    assert_eq!(f.ext, "md");
    assert_eq!(f.file_data, vec![1, 2, 3]);
}

#[test]
fn preview_carries_the_front_matter() {
    let post = sample_post(7, "sample", &["rust", "blog"]);
    let p = post.to_preview();
    assert_eq!(p.id, 7);
    assert_eq!(p.resource, "sample.md");
    assert_eq!(p.title, "Title of sample");
    assert_eq!(p.description, "About sample");
    assert_eq!(p.tags, vec!["rust".to_string(), "blog".to_string()]);
    assert_eq!(p.date, "2024-01-02");
}

#[test]
fn collect_tags_unites_without_duplicates() {
    let previews = vec![
        sample_post(1, "a", &["rust", "verify"]).to_preview(),
        sample_post(2, "b", &["blog", "rust"]).to_preview(),
        sample_post(3, "c", &[]).to_preview(),
    ];
    let mut tags = collect_tags(&previews);
    tags.sort();
    assert_eq!(
        tags,
        vec!["blog".to_string(), "rust".to_string(), "verify".to_string()]
    );
}

#[test]
fn collect_tags_of_nothing_is_empty() {
    let previews = Vec::new();
    assert!(collect_tags(&previews).is_empty());
}
