//! Preset field library: the named fields offered when building a field
//! tree, with their type, category and suggested extraction mode.
use vstd::prelude::*;
use crate::field_schema::{ExtractorMode, FieldType};

verus! {

/// One preset field.
#[derive(Debug, Clone)]
pub struct PresetField {
    pub key: &'static str,
    pub display_name: &'static str,
    /// A `FieldType` string.
    pub field_type: &'static str,
    /// `basic`, `metadata`, `classification`, `interaction` or `resource`.
    pub category: &'static str,
    pub description: &'static str,
    /// The mode suggested for extracting the field.
    pub suggested_extractor: &'static str,
    /// Position within its category, from 1.
    pub sort_order: i32,
}

/// The categories presets belong to.
pub open spec fn preset_categories() -> Seq<Seq<char>> {
    seq!["basic"@, "metadata"@, "classification"@, "interaction"@, "resource"@]
}

/// Keys of the preset library, in order.
pub open spec fn preset_keys() -> Seq<Seq<char>> {
    seq![
        "title"@,
        "url"@,
        "cover"@,
        "thumbnail"@,
        "description"@,
        "content"@,
        "author"@,
        "published_at"@,
        "updated_at"@,
        "source_site"@,
        "canonical_url"@,
        "copyright"@,
        "id"@,
        "category"@,
        "tags"@,
        "content_type"@,
        "language"@,
        "region"@,
        "view_count"@,
        "comment_count"@,
        "like_count"@,
        "rating"@,
        "download_url"@,
        "resource_name"@,
        "file_size"@,
        "duration"@,
        "version"@,
        "platform"@,
        "developer"@,
        "publisher"@,
        "release_date"@,
        "system_requirements"@,
        "format"@,
        "license"@,
        "instructor"@,
        "lesson_count"@,
        "course_duration"@,
        "course_level"@,
        "video_url"@,
        "video_cover"@,
        "video_duration"@,
        "video_resolution"@,
        "video_codec"@,
        "subtitles"@,
        "app_icon"@
    ]
}

/// A preset is well formed: a known field type, a known category, one of
/// the six single-page extraction modes as suggestion, a positive position.
pub open spec fn well_formed_preset(p: PresetField) -> bool {
    &&& FieldType::parse(p.field_type@) is Some
    &&& preset_categories().contains(p.category@)
    &&& ExtractorMode::parse(p.suggested_extractor@) matches Some(m) && m != ExtractorMode::FollowUrl
        && m != ExtractorMode::Script
    &&& p.sort_order >= 1
}

fn push_preset(v: &mut Vec<PresetField>, p: PresetField)
    requires
        well_formed_preset(p),
        old(v)@.len() < 45,
        p.key@ == preset_keys()[old(v)@.len() as int],
        forall|i: int| 0 <= i < old(v)@.len() ==> well_formed_preset(#[trigger] old(v)@[i])
            && old(v)@[i].key@ == preset_keys()[i],
    ensures
        final(v)@ == old(v)@.push(p),
        forall|i: int| 0 <= i < final(v)@.len() ==> well_formed_preset(#[trigger] final(v)@[i])
            && final(v)@[i].key@ == preset_keys()[i],
{
    v.push(p);
}

/// The 45 preset fields, keys in the order of [`preset_keys`], each well
/// formed.
pub fn builtin_presets() -> (r: Vec<PresetField>)
    ensures
        r@.len() == 45,
        forall|i: int| 0 <= i < 45 ==> well_formed_preset(#[trigger] r@[i]) && r@[i].key@ == preset_keys()[i],
{
    proof {
        reveal_strlit("app_icon");
        reveal_strlit("author");
        reveal_strlit("basic");
        reveal_strlit("canonical_url");
        reveal_strlit("category");
        reveal_strlit("classification");
        reveal_strlit("comment_count");
        reveal_strlit("content");
        reveal_strlit("content_type");
        reveal_strlit("copyright");
        reveal_strlit("course_duration");
        reveal_strlit("course_level");
        reveal_strlit("cover");
        reveal_strlit("css");
        reveal_strlit("datetime");
        reveal_strlit("description");
        reveal_strlit("developer");
        reveal_strlit("download_url");
        reveal_strlit("duration");
        reveal_strlit("file_size");
        reveal_strlit("format");
        reveal_strlit("id");
        reveal_strlit("image");
        reveal_strlit("instructor");
        reveal_strlit("interaction");
        reveal_strlit("language");
        reveal_strlit("lesson_count");
        reveal_strlit("license");
        reveal_strlit("like_count");
        reveal_strlit("meta_attr");
        reveal_strlit("metadata");
        reveal_strlit("number");
        reveal_strlit("platform");
        reveal_strlit("published_at");
        reveal_strlit("publisher");
        reveal_strlit("rating");
        reveal_strlit("regex");
        reveal_strlit("region");
        reveal_strlit("release_date");
        reveal_strlit("resource");
        reveal_strlit("resource_name");
        reveal_strlit("source_site");
        reveal_strlit("string");
        reveal_strlit("subtitles");
        reveal_strlit("system_requirements");
        reveal_strlit("tags");
        reveal_strlit("text");
        reveal_strlit("thumbnail");
        reveal_strlit("title");
        reveal_strlit("updated_at");
        reveal_strlit("url");
        reveal_strlit("version");
        reveal_strlit("video_codec");
        reveal_strlit("video_cover");
        reveal_strlit("video_duration");
        reveal_strlit("video_resolution");
        reveal_strlit("video_url");
        reveal_strlit("view_count");
    }
    let mut v: Vec<PresetField> = Vec::new();
    push_preset(&mut v, PresetField { key: "title", display_name: "标题", field_type: "string", category: "basic", description: "文章标题", suggested_extractor: "css", sort_order: 1 });
    push_preset(&mut v, PresetField { key: "url", display_name: "链接", field_type: "url", category: "basic", description: "详情页链接", suggested_extractor: "css", sort_order: 2 });
    push_preset(&mut v, PresetField { key: "cover", display_name: "封面", field_type: "image", category: "basic", description: "列表卡片封面图", suggested_extractor: "css", sort_order: 3 });
    push_preset(&mut v, PresetField { key: "thumbnail", display_name: "缩略图", field_type: "image", category: "basic", description: "小尺寸预览图", suggested_extractor: "css", sort_order: 4 });
    push_preset(&mut v, PresetField { key: "description", display_name: "描述", field_type: "text", category: "basic", description: "摘要/副标题/简介", suggested_extractor: "css", sort_order: 5 });
    push_preset(&mut v, PresetField { key: "content", display_name: "正文", field_type: "text", category: "basic", description: "详情页正文 HTML", suggested_extractor: "css", sort_order: 6 });
    push_preset(&mut v, PresetField { key: "author", display_name: "作者", field_type: "string", category: "metadata", description: "文章作者", suggested_extractor: "css", sort_order: 1 });
    push_preset(&mut v, PresetField { key: "published_at", display_name: "发布时间", field_type: "datetime", category: "metadata", description: "发布时间", suggested_extractor: "css", sort_order: 2 });
    push_preset(&mut v, PresetField { key: "updated_at", display_name: "更新时间", field_type: "datetime", category: "metadata", description: "最后更新时间", suggested_extractor: "css", sort_order: 3 });
    push_preset(&mut v, PresetField { key: "source_site", display_name: "来源站点", field_type: "string", category: "metadata", description: "来源站点名", suggested_extractor: "meta_attr", sort_order: 4 });
    push_preset(&mut v, PresetField { key: "canonical_url", display_name: "原文链接", field_type: "url", category: "metadata", description: "canonical 链接", suggested_extractor: "meta_attr", sort_order: 5 });
    push_preset(&mut v, PresetField { key: "copyright", display_name: "版权声明", field_type: "string", category: "metadata", description: "版权声明文本", suggested_extractor: "css", sort_order: 6 });
    push_preset(&mut v, PresetField { key: "id", display_name: "ID", field_type: "string", category: "metadata", description: "站点资源 ID（如 discuz thread-12345 中的 12345 / wordpress post-12345 中的 12345，用于跨页去重和站内唯一标识）", suggested_extractor: "regex", sort_order: 7 });
    push_preset(&mut v, PresetField { key: "category", display_name: "分类", field_type: "string", category: "classification", description: "文章分类", suggested_extractor: "css", sort_order: 1 });
    push_preset(&mut v, PresetField { key: "tags", display_name: "标签", field_type: "string", category: "classification", description: "标签列表", suggested_extractor: "css", sort_order: 2 });
    push_preset(&mut v, PresetField { key: "content_type", display_name: "内容类型", field_type: "string", category: "classification", description: "如视频/文章/资源", suggested_extractor: "meta_attr", sort_order: 3 });
    push_preset(&mut v, PresetField { key: "language", display_name: "语言", field_type: "string", category: "classification", description: "内容语言", suggested_extractor: "meta_attr", sort_order: 4 });
    push_preset(&mut v, PresetField { key: "region", display_name: "地区", field_type: "string", category: "classification", description: "内容地区", suggested_extractor: "meta_attr", sort_order: 5 });
    push_preset(&mut v, PresetField { key: "view_count", display_name: "浏览量", field_type: "number", category: "interaction", description: "浏览次数", suggested_extractor: "regex", sort_order: 1 });
    push_preset(&mut v, PresetField { key: "comment_count", display_name: "评论数", field_type: "number", category: "interaction", description: "评论条数", suggested_extractor: "regex", sort_order: 2 });
    push_preset(&mut v, PresetField { key: "like_count", display_name: "点赞数", field_type: "number", category: "interaction", description: "点赞次数", suggested_extractor: "regex", sort_order: 3 });
    push_preset(&mut v, PresetField { key: "rating", display_name: "评分", field_type: "number", category: "interaction", description: "评分（5 分制）", suggested_extractor: "regex", sort_order: 4 });
    push_preset(&mut v, PresetField { key: "download_url", display_name: "下载地址", field_type: "url", category: "resource", description: "资源下载地址（直链或网盘）。可能需用 follow_url 模式两阶段提取", suggested_extractor: "css", sort_order: 1 });
    push_preset(&mut v, PresetField { key: "resource_name", display_name: "资源名", field_type: "string", category: "resource", description: "资源名称（区别于文章标题 title，适用于一篇文章列多个资源的场景）", suggested_extractor: "css", sort_order: 2 });
    push_preset(&mut v, PresetField { key: "file_size", display_name: "附件大小", field_type: "string", category: "resource", description: "附件文件大小", suggested_extractor: "regex", sort_order: 3 });
    push_preset(&mut v, PresetField { key: "duration", display_name: "时长", field_type: "string", category: "resource", description: "音视频时长", suggested_extractor: "regex", sort_order: 4 });
    push_preset(&mut v, PresetField { key: "version", display_name: "版本号", field_type: "string", category: "resource", description: "软件/资源版本号", suggested_extractor: "regex", sort_order: 5 });
    push_preset(&mut v, PresetField { key: "platform", display_name: "平台", field_type: "string", category: "resource", description: "运行平台（Windows/macOS/Linux/iOS/Android/PS5/Xbox/Switch 等），多个用分隔符或重复抓取", suggested_extractor: "css", sort_order: 6 });
    push_preset(&mut v, PresetField { key: "developer", display_name: "开发者", field_type: "string", category: "resource", description: "软件/游戏开发者（工作室/公司）", suggested_extractor: "css", sort_order: 7 });
    push_preset(&mut v, PresetField { key: "publisher", display_name: "发行商", field_type: "string", category: "resource", description: "软件/游戏发行商", suggested_extractor: "css", sort_order: 8 });
    push_preset(&mut v, PresetField { key: "release_date", display_name: "发布日期", field_type: "datetime", category: "resource", description: "资源正式发布/发售日期（游戏/软件/教程通用）", suggested_extractor: "css", sort_order: 9 });
    push_preset(&mut v, PresetField { key: "system_requirements", display_name: "系统要求", field_type: "text", category: "resource", description: "最低配置 / 推荐配置 / 兼容系统版本（游戏/软件）", suggested_extractor: "css", sort_order: 10 });
    push_preset(&mut v, PresetField { key: "format", display_name: "资源格式", field_type: "string", category: "resource", description: "文件格式（MP4/PDF/EXE/DMG/ISO/RAR/MKV 等），可用于后续资源类型分流", suggested_extractor: "regex", sort_order: 11 });
    push_preset(&mut v, PresetField { key: "license", display_name: "授权类型", field_type: "string", category: "resource", description: "免费/开源/付费/订阅/试用 等授权模型（软件类常用）", suggested_extractor: "css", sort_order: 12 });
    push_preset(&mut v, PresetField { key: "instructor", display_name: "讲师", field_type: "string", category: "resource", description: "教程讲师/作者（视频课程/付费教程场景）", suggested_extractor: "css", sort_order: 13 });
    push_preset(&mut v, PresetField { key: "lesson_count", display_name: "章节数", field_type: "number", category: "resource", description: "教程章节/课时数量", suggested_extractor: "regex", sort_order: 14 });
    push_preset(&mut v, PresetField { key: "course_duration", display_name: "课程时长", field_type: "string", category: "resource", description: "教程总时长（如 12小时30分 / 12:30:00）", suggested_extractor: "regex", sort_order: 15 });
    push_preset(&mut v, PresetField { key: "course_level", display_name: "难度等级", field_type: "string", category: "resource", description: "入门/初级/中级/高级/专家（教程类常用）", suggested_extractor: "css", sort_order: 16 });
    push_preset(&mut v, PresetField { key: "video_url", display_name: "视频地址", field_type: "url", category: "resource", description: "视频源地址（MP4/M3U8/Embed 等），区别于通用 download_url", suggested_extractor: "css", sort_order: 17 });
    push_preset(&mut v, PresetField { key: "video_cover", display_name: "视频封面", field_type: "image", category: "resource", description: "视频独立封面（详情页播放器封面，区别于列表卡片 cover）", suggested_extractor: "css", sort_order: 18 });
    push_preset(&mut v, PresetField { key: "video_duration", display_name: "视频时长", field_type: "string", category: "resource", description: "单条视频时长（如 12:30 / 12分30秒），区别于教程总时长 course_duration", suggested_extractor: "regex", sort_order: 19 });
    push_preset(&mut v, PresetField { key: "video_resolution", display_name: "清晰度", field_type: "string", category: "resource", description: "分辨率（720p / 1080p / 2K / 4K / 8K）", suggested_extractor: "regex", sort_order: 20 });
    push_preset(&mut v, PresetField { key: "video_codec", display_name: "视频编码", field_type: "string", category: "resource", description: "视频编码格式（H.264 / H.265 / AV1 / VP9）", suggested_extractor: "regex", sort_order: 21 });
    push_preset(&mut v, PresetField { key: "subtitles", display_name: "字幕", field_type: "string", category: "resource", description: "字幕语言（中字 / 英字 / 中英双语 / 内嵌字幕 / 外挂字幕）", suggested_extractor: "css", sort_order: 22 });
    push_preset(&mut v, PresetField { key: "app_icon", display_name: "APP 图标", field_type: "image", category: "resource", description: "软件 / APP 应用图标 URL（区别于通用 cover，常用于下载站、应用市场）", suggested_extractor: "css", sort_order: 23 });
    v
}

} // verus!
