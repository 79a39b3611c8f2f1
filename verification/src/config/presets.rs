//! Example configuration files for common uses.

use vstd::prelude::*;

verus! {

/// The basic example configuration file.
pub const BASIC_CONFIG: &'static str = "# kaf-cli 基础配置文件\n\
# 适合一般的小说转换\n\
\n\
# 书名\n\
bookname: \"示例小说\"\n\
\n\
# 作者\n\
author: \"YSTYLE\"\n\
\n\
# 章节匹配规则\n\
chapter_match: \"^第.{1,8}章\"\n\
\n\
# 标题最大字数\n\
max_title_length: 35\n\
\n\
# 段落缩进字数\n\
indent: 2\n\
\n\
# 标题对齐方式\n\
align: \"center\"\n\
\n\
# 书籍语言\n\
lang: \"zh\"\n\
\n\
# 输出格式\n\
format: \"all\"\n";

/// The webnovel example configuration file.
pub const WEBNOVEL_CONFIG: &'static str = "# kaf-cli 网络小说配置文件\n\
# 适合在线小说格式\n\
\n\
# 书名\n\
bookname: \"网络小说示例\"\n\
\n\
# 作者\n\
author: \"网络作者\"\n\
\n\
# 章节匹配规则（更宽松）\n\
chapter_match: \"^第.{1,15}章|^[0-9]+\\s+\\S+\"\n\
\n\
# 卷匹配规则\n\
volume_match: \"^第[0-9一二三四五六七八九十零〇百千两 ]+[卷部]\"\n\
\n\
# 排除规则\n\
exclusion_pattern: \"^第[0-9一二三四五六七八九十零〇百千两 ]+(部门|部队|部属|部分|部件|部落)\"\n\
\n\
# 标题最大字数（网络小说标题通常较长）\n\
max_title_length: 50\n\
\n\
# 段落缩进字数\n\
indent: 2\n\
\n\
# 段落间距（网络小说适合更大间距）\n\
paragraph_spacing: \"1em\"\n\
\n\
# 行高（网络小说适合更大的行高）\n\
line_height: \"2.0\"\n\
\n\
# 标题对齐方式\n\
align: \"center\"\n\
\n\
# 书籍语言\n\
lang: \"zh\"\n\
\n\
# 输出格式\n\
format: \"all\"\n\
\n\
# 分离章节序号和标题\n\
separate_chapter_number: false\n\
\n\
# CSS 变量（网络小说主题）\n\
css_variables:\n\
  primary-color: \"#2c3e50\"\n\
  background-color: \"#ecf0f1\"\n\
  text-color: \"#34495e\"\n\
  link-color: \"#3498db\"\n";

/// The full example configuration file.
pub const FULL_CONFIG: &'static str = "# kaf-cli 完整配置文件\n\
# 包含所有可配置项\n\
\n\
# ========== 书籍信息 ==========\n\
# 书名\n\
bookname: \"完整示例\"\n\
\n\
# 作者\n\
author: \"示例作者\"\n\
\n\
# 输出文件名（不含扩展名）\n\
# output_name: \"custom_output\"\n\
\n\
# ========== 章节识别 ==========\n\
# 章节匹配规则（正则表达式）\n\
chapter_match: \"^第.{1,8}章\"\n\
\n\
# 卷匹配规则（正则表达式）\n\
volume_match: \"^第[0-9一二三四五六七八九十零〇百千两 ]+[卷部]\"\n\
\n\
# 排除规则（正则表达式）\n\
exclusion_pattern: \"^第[0-9一二三四五六七八九十零〇百千两 ]+(部门|部队|部属|部分|部件|部落)\"\n\
\n\
# 标题最大字数\n\
max_title_length: 35\n\
\n\
# 未知章节默认名称\n\
unknown_title: \"未知章节\"\n\
\n\
# ========== 段落处理 ==========\n\
# 段落缩进字数\n\
indent: 2\n\
\n\
# 段落间距\n\
paragraph_spacing: \"0.5em\"\n\
\n\
# 行高\n\
line_height: \"1.8\"\n\
\n\
# ========== 样式设置 ==========\n\
# 标题对齐方式 (left, center, right)\n\
align: \"center\"\n\
\n\
# 封面图片路径\n\
# cover: \"cover.jpg\"\n\
\n\
# 自定义 CSS 文件路径\n\
# custom_css: \"custom.css\"\n\
\n\
# 扩展 CSS（内联）\n\
# extended_css: |\n\
#   .content {\n\
#     font-size: 18px;\n\
#     line-height: 1.8;\n\
#   }\n\
\n\
# 嵌入字体文件路径（支持 TTF/OTF 格式）\n\
# font: \"fonts/custom.ttf\"\n\
\n\
# CSS 变量\n\
css_variables:\n\
  primary-color: \"#333333\"\n\
  background-color: \"#ffffff\"\n\
  text-color: \"#333333\"\n\
  link-color: \"#0000ff\"\n\
\n\
# ========== 输出设置 ==========\n\
# 书籍语言 (zh, en, de, fr, it, es, ja, pt, ru, nl)\n\
lang: \"zh\"\n\
\n\
# 输出格式 (epub, all)\n\
format: \"all\"\n\
\n\
# ========== 高级设置 ==========\n\
# 是否添加教程\n\
add_tips: false\n\
\n\
# 是否分离章节序号和标题\n\
separate_chapter_number: false\n\
\n\
# 章节页眉图片配置\n\
# chapter_header:\n\
#   image: \"header.jpg\"           # 页眉图片路径\n\
#   image_folder: \"headers/\"     # 页眉图片文件夹\n\
#   position: \"center\"           # 图片位置 (left, center, right)\n\
#   height: \"100px\"              # 图片高度\n\
#   width: \"auto\"                # 图片宽度\n\
#   mode: \"single\"               # 匹配模式 (single, folder)\n";

/// The minimal example configuration file.
pub const MINIMAL_CONFIG: &'static str = "# kaf-cli 简约配置文件\n\
# 只包含最基本的设置\n\
\n\
# 书名\n\
bookname: \"简约示例\"\n\
\n\
# 作者\n\
author: \"作者名\"\n\
\n\
# 输出格式\n\
format: \"epub\"\n";

/// The publication example configuration file.
pub const PUBLICATION_CONFIG: &'static str = "# kaf-cli 出版物配置文件\n\
# 适合正式出版书籍\n\
\n\
# 书名\n\
bookname: \"出版物示例\"\n\
\n\
# 作者\n\
author: \"正式作者\"\n\
\n\
# 章节匹配规则（出版物格式更严格）\n\
chapter_match: \"^第[0-9一二三四五六七八九十零〇]+章\"\n\
\n\
# 标题最大字数（出版物标题通常较短）\n\
max_title_length: 25\n\
\n\
# 段落缩进字数（出版物通常使用更大的缩进）\n\
indent: 2\n\
\n\
# 段落间距（出版物适合标准的段落间距）\n\
paragraph_spacing: \"0.5em\"\n\
\n\
# 行高（出版物适合标准的行高）\n\
line_height: \"1.6\"\n\
\n\
# 标题对齐方式（出版物通常居中对齐）\n\
align: \"center\"\n\
\n\
# 书籍语言\n\
lang: \"zh\"\n\
\n\
# 输出格式\n\
format: \"epub\"\n\
\n\
# CSS 变量（出版物主题 - 传统风格）\n\
css_variables:\n\
  primary-color: \"#000000\"\n\
  background-color: \"#ffffff\"\n\
  text-color: \"#000000\"\n\
  link-color: \"#0000ff\"\n\
\n\
# 出版物通常不添加教程\n\
add_tips: false\n\
\n\
# 出版物通常不分离章节序号\n\
separate_chapter_number: false\n";

/// The example configurations.
#[derive(Debug, Clone, Copy, PartialEq, Eq, Structural)]
pub enum ConfigPreset {
    /// Basic.
    Basic,
    /// Web novels.
    WebNovel,
    /// Every option.
    Full,
    /// Minimal.
    Minimal,
    /// Publications.
    Publication,
}

impl ConfigPreset {
    /// The key of the preset.
    pub open spec fn spec_name(self) -> Seq<char> {
        match self {
            ConfigPreset::Basic => "basic"@,
            ConfigPreset::WebNovel => "webnovel"@,
            ConfigPreset::Full => "full"@,
            ConfigPreset::Minimal => "minimal"@,
            ConfigPreset::Publication => "publication"@,
        }
    }

    /// The description of the preset.
    pub open spec fn spec_description(self) -> Seq<char> {
        match self {
            ConfigPreset::Basic => "基础配置 - 适合一般的小说转换"@,
            ConfigPreset::WebNovel => "网络小说配置 - 适合在线小说格式"@,
            ConfigPreset::Full => "完整配置 - 包含所有可配置项"@,
            ConfigPreset::Minimal => "简约配置 - 只包含最基本的设置"@,
            ConfigPreset::Publication => "出版物配置 - 适合正式出版书籍"@,
        }
    }

    /// The example file of the preset.
    pub open spec fn spec_text(self) -> Seq<char> {
        match self {
            ConfigPreset::Basic => BASIC_CONFIG@,
            ConfigPreset::WebNovel => WEBNOVEL_CONFIG@,
            ConfigPreset::Full => FULL_CONFIG@,
            ConfigPreset::Minimal => MINIMAL_CONFIG@,
            ConfigPreset::Publication => PUBLICATION_CONFIG@,
        }
    }

    /// The key of the preset.
    pub fn name(&self) -> (r: &'static str)
        ensures
            r@ == self.spec_name(),
    {
        match self {
            ConfigPreset::Basic => "basic",
            ConfigPreset::WebNovel => "webnovel",
            ConfigPreset::Full => "full",
            ConfigPreset::Minimal => "minimal",
            ConfigPreset::Publication => "publication",
        }
    }

    /// The description of the preset.
    pub fn description(&self) -> (r: &'static str)
        ensures
            r@ == self.spec_description(),
    {
        match self {
            ConfigPreset::Basic => "基础配置 - 适合一般的小说转换",
            ConfigPreset::WebNovel => "网络小说配置 - 适合在线小说格式",
            ConfigPreset::Full => "完整配置 - 包含所有可配置项",
            ConfigPreset::Minimal => "简约配置 - 只包含最基本的设置",
            ConfigPreset::Publication => "出版物配置 - 适合正式出版书籍",
        }
    }
}

/// The example configurations by key, in the order of the presets.
pub struct ConfigExamples {
    entries: Vec<(String, String)>,
}

impl ConfigExamples {
    /// The pairs of key and example file, in order.
    pub closed spec fn pairs(&self) -> Seq<(Seq<char>, Seq<char>)> {
        self.entries@.map_values(|e: (String, String)| (e.0@, e.1@))
    }

    /// Number of examples.
    pub fn len(&self) -> (r: usize)
        ensures
            r == self.pairs().len(),
    {
        self.entries.len()
    }

    /// Position of `key`, if it is held.
    fn position(&self, key: &str) -> (r: Option<usize>)
        ensures
            r matches Some(i) ==> i < self.pairs().len() && self.pairs()[i as int].0 == key@
                && forall|k: int| 0 <= k < i ==> self.pairs()[k].0 != key@,
            r is None ==> forall|k: int| 0 <= k < self.pairs().len() ==> self.pairs()[k].0 != key@,
    {
        let mut i: usize = 0;
        while i < self.entries.len()
            invariant
                i <= self.entries@.len(),
                forall|k: int| 0 <= k < i ==> self.pairs()[k].0 != key@,
            decreases self.entries.len() - i,
        {
            if crate::text::chars_eq_str(&crate::text::chars_of(self.entries[i].0.as_str()), key) {
                return Some(i);
            }
            i = i + 1;
        }
        None
    }

    /// Whether an example is held under `key`.
    pub fn contains_key(&self, key: &str) -> (r: bool)
        ensures
            r == exists|k: int| 0 <= k < self.pairs().len() && self.pairs()[k].0 == key@,
    {
        self.position(key).is_some()
    }

    /// The example held under `key`, if any.
    pub fn get(&self, key: &str) -> (r: Option<&String>)
        ensures
            r matches Some(t) ==> exists|k: int|
                0 <= k < self.pairs().len() && self.pairs()[k].0 == key@ && self.pairs()[k].1 == t@,
            r is None ==> forall|k: int| 0 <= k < self.pairs().len() ==> self.pairs()[k].0 != key@,
    {
        match self.position(key) {
            Some(i) => Some(&self.entries[i].1),
            None => None,
        }
    }
}

/// Every example configuration, keyed by preset name.
pub fn generate_config_examples() -> (r: ConfigExamples)
    ensures
        r.pairs() == seq![
            (ConfigPreset::Basic.spec_name(), BASIC_CONFIG@),
            (ConfigPreset::WebNovel.spec_name(), WEBNOVEL_CONFIG@),
            (ConfigPreset::Full.spec_name(), FULL_CONFIG@),
            (ConfigPreset::Minimal.spec_name(), MINIMAL_CONFIG@),
            (ConfigPreset::Publication.spec_name(), PUBLICATION_CONFIG@),
        ],
{
    let mut entries: Vec<(String, String)> = Vec::new();
    entries.push((ConfigPreset::Basic.name().to_owned(), generate_basic_config()));
    entries.push((ConfigPreset::WebNovel.name().to_owned(), generate_webnovel_config()));
    entries.push((ConfigPreset::Full.name().to_owned(), generate_full_config()));
    entries.push((ConfigPreset::Minimal.name().to_owned(), generate_minimal_config()));
    entries.push((ConfigPreset::Publication.name().to_owned(), generate_publication_config()));
    let r = ConfigExamples { entries };
    assert(r.pairs() =~= seq![
        (ConfigPreset::Basic.spec_name(), BASIC_CONFIG@),
        (ConfigPreset::WebNovel.spec_name(), WEBNOVEL_CONFIG@),
        (ConfigPreset::Full.spec_name(), FULL_CONFIG@),
        (ConfigPreset::Minimal.spec_name(), MINIMAL_CONFIG@),
        (ConfigPreset::Publication.spec_name(), PUBLICATION_CONFIG@),
    ]);
    r
}

/// The basic example configuration.
pub fn generate_basic_config() -> (r: String)
    ensures
        r@ == BASIC_CONFIG@,
{
    BASIC_CONFIG.to_owned()
}

/// The web novel example configuration.
pub fn generate_webnovel_config() -> (r: String)
    ensures
        r@ == WEBNOVEL_CONFIG@,
{
    WEBNOVEL_CONFIG.to_owned()
}

/// The example configuration with every option.
pub fn generate_full_config() -> (r: String)
    ensures
        r@ == FULL_CONFIG@,
{
    FULL_CONFIG.to_owned()
}

/// The minimal example configuration.
pub fn generate_minimal_config() -> (r: String)
    ensures
        r@ == MINIMAL_CONFIG@,
{
    MINIMAL_CONFIG.to_owned()
}

/// The publication example configuration.
pub fn generate_publication_config() -> (r: String)
    ensures
        r@ == PUBLICATION_CONFIG@,
{
    PUBLICATION_CONFIG.to_owned()
}

} // verus!
