use crawler::preset_library::{builtin_presets, PresetField};

#[test]
fn t_builtin_presets_at_least_20() {
    let presets = builtin_presets();
    assert!(presets.len() >= 20, "BUILTIN_PRESETS 至少 20 条，实际 {}", presets.len());
}

#[test]
fn t_builtin_presets_count_exactly_45() {
    assert_eq!(builtin_presets().len(), 45);
}

#[test]
fn t_builtin_presets_keys_unique() {
    let presets = builtin_presets();
    let mut keys: Vec<&str> = presets.iter().map(|p| p.key).collect();
    keys.sort();
    let total = keys.len();
    keys.dedup();
    assert_eq!(keys.len(), total, "存在重复 key");
}

#[test]
fn t_builtin_presets_categories_cover_5() {
    let presets = builtin_presets();
    let cats: std::collections::HashSet<&str> = presets.iter().map(|p| p.category).collect();
    assert!(cats.contains("basic"));
    assert!(cats.contains("metadata"));
    assert!(cats.contains("classification"));
    assert!(cats.contains("interaction"));
    assert!(cats.contains("resource"));
}

#[test]
fn t_builtin_presets_required_keys_present() {
    let presets = builtin_presets();
    let keys: std::collections::HashSet<&str> = presets.iter().map(|p| p.key).collect();
    for required in [
        "title", "url", "cover", "description", "content", "author", "published_at", "category",
        "tags", "view_count", "file_size", "download_url", "resource_name",
    ] {
        assert!(keys.contains(required), "缺失必需字段 {required}");
    }
}

#[test]
fn t_resource_category_sort_order_download_url_first() {
    let presets = builtin_presets();
    let mut resource: Vec<&PresetField> = presets.iter().filter(|p| p.category == "resource").collect();
    resource.sort_by_key(|p| p.sort_order);
    assert_eq!(resource.len(), 23, "resource 类应有 23 条（原 5 + 游戏/软件/教程 11 + 视频 6 + APP 1）");
    assert_eq!(resource[0].key, "download_url");
    assert_eq!(resource[1].key, "resource_name");
    assert_eq!(resource[0].field_type, "url");
    assert_eq!(resource[1].field_type, "string");
    assert_eq!(resource[2].key, "file_size");
    assert_eq!(resource[3].key, "duration");
    assert_eq!(resource[4].key, "version");
    assert_eq!(resource[5].key, "platform");
    assert_eq!(resource[6].key, "developer");
    assert_eq!(resource[7].key, "publisher");
    assert_eq!(resource[8].key, "release_date");
    assert_eq!(resource[9].key, "system_requirements");
    assert_eq!(resource[10].key, "format");
    assert_eq!(resource[11].key, "license");
    assert_eq!(resource[12].key, "instructor");
    assert_eq!(resource[13].key, "lesson_count");
    assert_eq!(resource[14].key, "course_duration");
    assert_eq!(resource[15].key, "course_level");
    assert_eq!(resource[16].key, "video_url");
    assert_eq!(resource[17].key, "video_cover");
    assert_eq!(resource[18].key, "video_duration");
    assert_eq!(resource[19].key, "video_resolution");
    assert_eq!(resource[20].key, "video_codec");
    assert_eq!(resource[21].key, "subtitles");
    assert_eq!(resource[22].key, "app_icon");
}

#[test]
fn t_resource_new_fields_keys_unique_vs_existing() {
    let presets = builtin_presets();
    let new_keys = [
        "platform", "developer", "publisher", "release_date", "system_requirements", "format",
        "license", "instructor", "lesson_count", "course_duration", "course_level",
    ];
    let existing: std::collections::HashSet<&str> = presets.iter().map(|p| p.key).collect();
    for k in new_keys {
        assert!(existing.contains(k), "新增字段 {k} 未在 BUILTIN_PRESETS 中");
    }
    for k in new_keys {
        let p = presets.iter().find(|p| p.key == k).unwrap();
        assert_eq!(p.category, "resource", "{} 应归类 resource", k);
    }
}

#[test]
fn t_suggested_extractor_valid() {
    let valid = ["css", "regex", "prefix_suffix", "json_path", "meta_attr", "header_field"];
    for p in builtin_presets() {
        assert!(
            valid.contains(&p.suggested_extractor),
            "{} 的 suggested_extractor={} 不合法",
            p.key,
            p.suggested_extractor
        );
    }
}
