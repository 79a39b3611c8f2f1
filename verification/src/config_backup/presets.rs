//! Example configuration files for common uses (earlier set).

use vstd::prelude::*;

verus! {

/// The basic example configuration file.
pub const BASIC_CONFIG: &'static str = r##"# kaf-cli 基础配置文件
# 适合一般的小说转换

# 书名
bookname: "示例小说"

# 作者
author: "YSTYLE"

# 章节匹配规则
chapter_match: "^第.{1,8}章"

# 标题最大字数
max_title_length: 35

# 段落缩进字数
indent: 2

# 标题对齐方式
align: "center"

# 书籍语言
lang: "zh"

# 输出格式
format: "all"
"##;

/// The webnovel example configuration file.
pub const WEBNOVEL_CONFIG: &'static str = r##"# kaf-cli 网络小说配置文件
# 适合在线小说格式

# 书名
bookname: "网络小说示例"

# 作者
author: "网络作者"

# 章节匹配规则（更宽松）
chapter_match: "^第.{1,15}章|^[0-9]+\s+\S+"

# 卷匹配规则
volume_match: "^第[0-9一二三四五六七八九十零〇百千两 ]+[卷部]"

# 排除规则
exclusion_pattern: "^第[0-9一二三四五六七八九十零〇百千两 ]+(部门|部队|部属|部分|部件|部落)"

# 标题最大字数（网络小说标题通常较长）
max_title_length: 50

# 段落缩进字数
indent: 2

# 段落间距（网络小说适合更大间距）
paragraph_spacing: "1em"

# 行高（网络小说适合更大的行高）
line_height: "2.0"

# 标题对齐方式
align: "center"

# 书籍语言
lang: "zh"

# 输出格式
format: "all"

# 分离章节序号和标题
separate_chapter_number: false

# CSS 变量（网络小说主题）
css_variables:
  primary-color: "#2c3e50"
  background-color: "#ecf0f1"
  text-color: "#34495e"
  link-color: "#3498db"
"##;

/// The full example configuration file.
pub const FULL_CONFIG: &'static str = r##"# kaf-cli 完整配置文件
# 包含所有可配置项

# ========== 书籍信息 ==========
# 书名
bookname: "完整示例"

# 作者
author: "示例作者"

# 输出文件名（不含扩展名）
# output_name: "custom_output"

# ========== 章节识别 ==========
# 章节匹配规则（正则表达式）
chapter_match: "^第.{1,8}章"

# 卷匹配规则（正则表达式）
volume_match: "^第[0-9一二三四五六七八九十零〇百千两 ]+[卷部]"

# 排除规则（正则表达式）
exclusion_pattern: "^第[0-9一二三四五六七八九十零〇百千两 ]+(部门|部队|部属|部分|部件|部落)"

# 标题最大字数
max_title_length: 35

# 未知章节默认名称
unknown_title: "未知章节"

# ========== 段落处理 ==========
# 段落缩进字数
indent: 2

# 段落间距
paragraph_spacing: "0.5em"

# 行高
line_height: "1.8"

# ========== 样式设置 ==========
# 标题对齐方式 (left, center, right)
align: "center"

# 封面图片路径
# cover: "cover.jpg"

# 自定义 CSS 文件路径
# custom_css: "custom.css"

# 扩展 CSS（内联）
# extended_css: |
#   .content {
#     font-size: 18px;
#     line-height: 1.8;
#   }

# 嵌入字体文件路径（支持 TTF/OTF 格式）
# font: "fonts/custom.ttf"

# CSS 变量
css_variables:
  primary-color: "#333333"
  background-color: "#ffffff"
  text-color: "#333333"
  link-color: "#0000ff"

# ========== 输出设置 ==========
# 书籍语言 (zh, en, de, fr, it, es, ja, pt, ru, nl)
lang: "zh"

# 输出格式 (epub, all)
format: "all"

# ========== 高级设置 ==========
# 是否添加教程
add_tips: false

# 是否分离章节序号和标题
separate_chapter_number: false

# 章节页眉图片配置
# chapter_header:
#   image: "header.jpg"           # 页眉图片路径
#   image_folder: "headers/"     # 页眉图片文件夹
#   position: "center"           # 图片位置 (left, center, right)
#   height: "100px"              # 图片高度
#   width: "auto"                # 图片宽度
#   mode: "single"               # 匹配模式 (single, folder)
"##;

/// The minimal example configuration file.
pub const MINIMAL_CONFIG: &'static str = r##"# kaf-cli 简约配置文件
# 只包含最基本的设置

# 书名
bookname: "简约示例"

# 作者
author: "作者名"

# 输出格式
format: "epub"
"##;

/// The publication example configuration file.
pub const PUBLICATION_CONFIG: &'static str = r##"# kaf-cli 出版物配置文件
# 适合正式出版书籍

# 书名
bookname: "出版物示例"

# 作者
author: "正式作者"

# 章节匹配规则（出版物格式更严格）
chapter_match: "^第[0-9一二三四五六七八九十零〇]+章"

# 标题最大字数（出版物标题通常较短）
max_title_length: 25

# 段落缩进字数（出版物通常使用更大的缩进）
indent: 2

# 段落间距（出版物适合标准的段落间距）
paragraph_spacing: "0.5em"

# 行高（出版物适合标准的行高）
line_height: "1.6"

# 标题对齐方式（出版物通常居中对齐）
align: "center"

# 书籍语言
lang: "zh"

# 输出格式
format: "epub"

# CSS 变量（出版物主题 - 传统风格）
css_variables:
  primary-color: "#000000"
  background-color: "#ffffff"
  text-color: "#000000"
  link-color: "#0000ff"

# 出版物通常不添加教程
add_tips: false

# 出版物通常不分离章节序号
separate_chapter_number: false
"##;

/// The example configurations.
#[derive(Debug, Clone, Copy, PartialEq, Eq, Structural)]
pub enum ConfigPreset {
    /// Basic.
    Basic,
    /// Web novels.
    WebNovel,
    /// Every option.
    Full,
    /// Minimal.
    Minimal,
    /// Publications.
    Publication,
}

impl ConfigPreset {
    /// The key of the preset.
    pub open spec fn spec_name(self) -> Seq<char> {
        match self {
            ConfigPreset::Basic => "basic"@,
            ConfigPreset::WebNovel => "webnovel"@,
            ConfigPreset::Full => "full"@,
            ConfigPreset::Minimal => "minimal"@,
            ConfigPreset::Publication => "publication"@,
        }
    }

    /// The description of the preset.
    pub open spec fn spec_description(self) -> Seq<char> {
        match self {
            ConfigPreset::Basic => "基础配置 - 适合一般的小说转换"@,
            ConfigPreset::WebNovel => "网络小说配置 - 适合在线小说格式"@,
            ConfigPreset::Full => "完整配置 - 包含所有可配置项"@,
            ConfigPreset::Minimal => "简约配置 - 只包含最基本的设置"@,
            ConfigPreset::Publication => "出版物配置 - 适合正式出版书籍"@,
        }
    }

    /// The example file of the preset.
    pub open spec fn spec_text(self) -> Seq<char> {
        match self {
            ConfigPreset::Basic => BASIC_CONFIG@,
            ConfigPreset::WebNovel => WEBNOVEL_CONFIG@,
            ConfigPreset::Full => FULL_CONFIG@,
            ConfigPreset::Minimal => MINIMAL_CONFIG@,
            ConfigPreset::Publication => PUBLICATION_CONFIG@,
        }
    }

    /// The key of the preset.
    pub fn name(&self) -> (r: &'static str)
        ensures
            r@ == self.spec_name(),
    {
        match self {
            ConfigPreset::Basic => "basic",
            ConfigPreset::WebNovel => "webnovel",
            ConfigPreset::Full => "full",
            ConfigPreset::Minimal => "minimal",
            ConfigPreset::Publication => "publication",
        }
    }

    /// The description of the preset.
    pub fn description(&self) -> (r: &'static str)
        ensures
            r@ == self.spec_description(),
    {
        match self {
            ConfigPreset::Basic => "基础配置 - 适合一般的小说转换",
            ConfigPreset::WebNovel => "网络小说配置 - 适合在线小说格式",
            ConfigPreset::Full => "完整配置 - 包含所有可配置项",
            ConfigPreset::Minimal => "简约配置 - 只包含最基本的设置",
            ConfigPreset::Publication => "出版物配置 - 适合正式出版书籍",
        }
    }
}

/// The example configurations by key, in the order of the presets.
pub struct ConfigExamples {
    entries: Vec<(String, String)>,
}

impl ConfigExamples {
    /// The pairs of key and example file, in order.
    pub closed spec fn pairs(&self) -> Seq<(Seq<char>, Seq<char>)> {
        self.entries@.map_values(|e: (String, String)| (e.0@, e.1@))
    }

    /// Number of examples.
    pub fn len(&self) -> (r: usize)
        ensures
            r == self.pairs().len(),
    {
        self.entries.len()
    }

    /// Position of `key`, if it is held.
    fn position(&self, key: &str) -> (r: Option<usize>)
        ensures
            r matches Some(i) ==> i < self.pairs().len() && self.pairs()[i as int].0 == key@
                && forall|k: int| 0 <= k < i ==> self.pairs()[k].0 != key@,
            r is None ==> forall|k: int| 0 <= k < self.pairs().len() ==> self.pairs()[k].0 != key@,
    {
        let mut i: usize = 0;
        while i < self.entries.len()
            invariant
                i <= self.entries@.len(),
                forall|k: int| 0 <= k < i ==> self.pairs()[k].0 != key@,
            decreases self.entries.len() - i,
        {
            if crate::text::chars_eq_str(&crate::text::chars_of(self.entries[i].0.as_str()), key) {
                return Some(i);
            }
            i = i + 1;
        }
        None
    }

    /// Whether an example is held under `key`.
    pub fn contains_key(&self, key: &str) -> (r: bool)
        ensures
            r == exists|k: int| 0 <= k < self.pairs().len() && self.pairs()[k].0 == key@,
    {
        self.position(key).is_some()
    }

    /// The example held under `key`, if any.
    pub fn get(&self, key: &str) -> (r: Option<&String>)
        ensures
            r matches Some(t) ==> exists|k: int|
                0 <= k < self.pairs().len() && self.pairs()[k].0 == key@ && self.pairs()[k].1 == t@,
            r is None ==> forall|k: int| 0 <= k < self.pairs().len() ==> self.pairs()[k].0 != key@,
    {
        match self.position(key) {
            Some(i) => Some(&self.entries[i].1),
            None => None,
        }
    }
}

/// Every example configuration, keyed by preset name.
pub fn generate_config_examples() -> (r: ConfigExamples)
    ensures
        r.pairs() == seq![
            (ConfigPreset::Basic.spec_name(), BASIC_CONFIG@),
            (ConfigPreset::WebNovel.spec_name(), WEBNOVEL_CONFIG@),
            (ConfigPreset::Full.spec_name(), FULL_CONFIG@),
            (ConfigPreset::Minimal.spec_name(), MINIMAL_CONFIG@),
            (ConfigPreset::Publication.spec_name(), PUBLICATION_CONFIG@),
        ],
{
    let mut entries: Vec<(String, String)> = Vec::new();
    entries.push((ConfigPreset::Basic.name().to_owned(), generate_basic_config()));
    entries.push((ConfigPreset::WebNovel.name().to_owned(), generate_webnovel_config()));
    entries.push((ConfigPreset::Full.name().to_owned(), generate_full_config()));
    entries.push((ConfigPreset::Minimal.name().to_owned(), generate_minimal_config()));
    entries.push((ConfigPreset::Publication.name().to_owned(), generate_publication_config()));
    let r = ConfigExamples { entries };
    assert(r.pairs() =~= seq![
        (ConfigPreset::Basic.spec_name(), BASIC_CONFIG@),
        (ConfigPreset::WebNovel.spec_name(), WEBNOVEL_CONFIG@),
        (ConfigPreset::Full.spec_name(), FULL_CONFIG@),
        (ConfigPreset::Minimal.spec_name(), MINIMAL_CONFIG@),
        (ConfigPreset::Publication.spec_name(), PUBLICATION_CONFIG@),
    ]);
    r
}

/// The basic example configuration.
pub fn generate_basic_config() -> (r: String)
    ensures
        r@ == BASIC_CONFIG@,
{
    BASIC_CONFIG.to_owned()
}

/// The web novel example configuration.
pub fn generate_webnovel_config() -> (r: String)
    ensures
        r@ == WEBNOVEL_CONFIG@,
{
    WEBNOVEL_CONFIG.to_owned()
}

/// The example configuration with every option.
pub fn generate_full_config() -> (r: String)
    ensures
        r@ == FULL_CONFIG@,
{
    FULL_CONFIG.to_owned()
}

/// The minimal example configuration.
pub fn generate_minimal_config() -> (r: String)
    ensures
        r@ == MINIMAL_CONFIG@,
{
    MINIMAL_CONFIG.to_owned()
}

/// The publication example configuration.
pub fn generate_publication_config() -> (r: String)
    ensures
        r@ == PUBLICATION_CONFIG@,
{
    PUBLICATION_CONFIG.to_owned()
}

} // verus!
