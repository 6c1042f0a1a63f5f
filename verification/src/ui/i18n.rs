//! Interface texts in Simplified Chinese and English, looked up by key.
//! Both dictionaries hold the same keys in the same order; a key that
//! neither holds is shown as it is.

use vstd::prelude::*;
use crate::config::{description_key_spec, HotkeyAction, Language};
use crate::text::str_eq;

verus! {

/// The simplified Chinese dictionary: key and text, in order.
pub open spec fn zh_entries() -> Seq<(&'static str, &'static str)> {
    seq![
        ("app.title", "ScreenTune"),
        ("app.tagline", "Instant Display Control for Gamers"),
        ("app.version", "版本"),
        ("nav.display", "显示调节"),
        ("nav.profiles", "配置方案"),
        ("nav.hotkeys", "全局快捷键"),
        ("nav.settings", "设置"),
        ("nav.monitors", "显示器"),
        ("header.monitor", "显示器"),
        ("header.apply_all", "同步到全部显示器"),
        ("header.current_profile", "当前方案"),
        ("header.custom", "自定义"),
        ("display.gamma", "Gamma"),
        ("display.gamma_tip", "范围 50~150，默认 100。实时 Gamma 曲线调节。"),
        ("display.brightness", "亮度"),
        ("display.brightness_tip", "范围 0~100。支持 DDC/CI 时直控硬件，否则通过 Gamma 模拟。"),
        ("display.contrast", "对比度"),
        ("display.contrast_tip", "范围 50~150，默认 100。"),
        ("display.saturation", "饱和度"),
        ("display.saturation_tip", "范围 0~200%，默认 100%。模拟 NVIDIA Digital Vibrance。"),
        ("display.temperature", "色温"),
        ("display.temperature_tip", "范围 2500K~10000K，默认 6500K（D65）。"),
        ("display.restore", "恢复默认"),
        ("display.ddc", "DDC/CI 硬件直控"),
        ("display.gamma_mode", "Gamma 模拟"),
        ("display.no_monitor", "未检测到显示器"),
        ("display.reset_monitor", "恢复此显示器原始画面"),
        ("display.reset_monitor_tip", "将该显示器恢复到本程序启动前的原始 LUT 与亮度"),
        ("monitor.name", "名称"),
        ("monitor.resolution", "分辨率"),
        ("monitor.primary", "主显示器"),
        ("monitor.ddc", "DDC/CI"),
        ("monitor.brightness_now", "当前亮度"),
        ("monitor.refresh", "重新检测显示器"),
        ("monitor.refresh_tip", "显示器热插拔后点击刷新"),
        ("profiles.title", "配置方案"),
        ("profiles.apply", "应用方案"),
        ("profiles.new", "新建方案"),
        ("profiles.delete", "删除"),
        ("profiles.import", "导入 JSON"),
        ("profiles.export", "导出 JSON"),
        ("profiles.name", "名称"),
        ("profiles.desc", "描述"),
        ("profiles.hotkey", "快捷键"),
        ("profiles.none", "无"),
        ("profiles.builtin", "内置"),
        ("profiles.applied", "已应用"),
        ("profiles.delete_confirm", "确定删除方案"),
        ("profiles.import_hint", "将方案 JSON 粘贴到此处，点击导入。"),
        ("profiles.exported", "已导出到剪贴板"),
        ("profiles.imported", "方案已导入"),
        ("profiles.enter_name", "请输入方案名称"),
        ("profiles.save", "保存"),
        ("profiles.cancel", "取消"),
        ("profiles.editing", "正在编辑"),
        ("profiles.desc_placeholder", "方案描述（可选）"),
        ("hotkeys.title", "全局快捷键"),
        ("hotkeys.tip", "按下要设置的组合键（如 Ctrl+Alt+1）。系统级生效，游戏内也可用。"),
        ("hotkeys.edit", "修改"),
        ("hotkeys.capture_hint", "请按下新的组合键…（Esc 取消）"),
        ("hotkeys.conflict", "冲突"),
        ("hotkeys.action", "动作"),
        ("hotkeys.spec", "快捷键"),
        ("hotkeys.no_support", "当前平台不支持全局快捷键"),
        ("hotkeys.updated", "快捷键已更新"),
        ("hotkey.action.restore_default", "恢复默认"),
        ("hotkey.action.apply_profile", "应用方案"),
        ("hotkey.action.show_window", "显示主窗口"),
        ("settings.title", "设置"),
        ("settings.startup", "开机自动启动"),
        ("settings.close_to_tray", "关闭窗口时最小化到托盘"),
        ("settings.language", "语言 / Language"),
        ("settings.theme", "主题"),
        ("settings.dark", "深色（Fluent Dark）"),
        ("settings.light", "浅色（Fluent Light）"),
        ("settings.game_detection", "游戏自动切换配置"),
        ("settings.game_detection_tip", "游戏启动时自动应用对应方案，退出后恢复默认。"),
        ("settings.game_poll", "检测间隔（秒）"),
        ("settings.game_rules", "游戏规则"),
        ("settings.rule_exe", "进程名"),
        ("settings.rule_profile", "应用方案"),
        ("settings.rule_enabled", "启用"),
        ("settings.add_rule", "添加规则"),
        ("settings.rule_placeholder", "如 rust.exe"),
        ("settings.log_level", "日志级别"),
        ("settings.about", "关于"),
        ("settings.roadmap", "Roadmap"),
        ("settings.roadmap_items", "HDR · ICC Profile · Night Light · AMD/Intel Color · NVIDIA API · Auto HDR · 命令行模式 · 插件系统 · Lua 脚本 · 自动更新 · 国际化"),
        ("settings.no_telemetry", "无遥测 · 无广告 · 无需联网 · 开源"),
        ("common.close", "关闭"),
        ("common.add", "添加"),
        ("common.delete", "删除"),
        ("common.off", "关闭"),
        ("common.on", "开启"),
        ("toast.hotkey_conflict", "以下快捷键被其他程序占用"),
        ("toast.game_profile", "游戏方案已应用："),
        ("toast.game_exited", "游戏退出，已恢复默认"),
        ("toast.restored", "已恢复默认参数"),
        ("toast.saved", "已保存"),
        ("toast.rule_saved", "游戏规则已保存"),
    ]
}

/// The English dictionary: key and text, in order.
pub open spec fn en_entries() -> Seq<(&'static str, &'static str)> {
    seq![
        ("app.title", "ScreenTune"),
        ("app.tagline", "Instant Display Control for Gamers"),
        ("app.version", "Version"),
        ("nav.display", "Display"),
        ("nav.profiles", "Profiles"),
        ("nav.hotkeys", "Hotkeys"),
        ("nav.settings", "Settings"),
        ("nav.monitors", "Monitors"),
        ("header.monitor", "Monitor"),
        ("header.apply_all", "Apply to all monitors"),
        ("header.current_profile", "Current profile"),
        ("header.custom", "Custom"),
        ("display.gamma", "Gamma"),
        ("display.gamma_tip", "50~150, default 100. Real-time gamma curve."),
        ("display.brightness", "Brightness"),
        ("display.brightness_tip", "0~100. DDC/CI hardware control when supported, otherwise gamma simulation."),
        ("display.contrast", "Contrast"),
        ("display.contrast_tip", "50~150, default 100."),
        ("display.saturation", "Saturation"),
        ("display.saturation_tip", "0~200%, default 100%. NVIDIA Digital Vibrance style simulation."),
        ("display.temperature", "Color Temperature"),
        ("display.temperature_tip", "2500K~10000K, default 6500K (D65)."),
        ("display.restore", "Restore defaults"),
        ("display.ddc", "DDC/CI hardware control"),
        ("display.gamma_mode", "Gamma simulation"),
        ("display.no_monitor", "No monitor detected"),
        ("display.reset_monitor", "Restore this monitor"),
        ("display.reset_monitor_tip", "Restore this monitor to the original LUT and brightness at app start"),
        ("monitor.name", "Name"),
        ("monitor.resolution", "Resolution"),
        ("monitor.primary", "Primary"),
        ("monitor.ddc", "DDC/CI"),
        ("monitor.brightness_now", "Brightness"),
        ("monitor.refresh", "Re-scan monitors"),
        ("monitor.refresh_tip", "Refresh after monitor hot-plug"),
        ("profiles.title", "Profiles"),
        ("profiles.apply", "Apply"),
        ("profiles.new", "New profile"),
        ("profiles.delete", "Delete"),
        ("profiles.import", "Import JSON"),
        ("profiles.export", "Export JSON"),
        ("profiles.name", "Name"),
        ("profiles.desc", "Description"),
        ("profiles.hotkey", "Hotkey"),
        ("profiles.none", "None"),
        ("profiles.builtin", "Built-in"),
        ("profiles.applied", "Applied"),
        ("profiles.delete_confirm", "Delete profile"),
        ("profiles.import_hint", "Paste profile JSON here, then click Import."),
        ("profiles.exported", "Exported to clipboard"),
        ("profiles.imported", "Profile imported"),
        ("profiles.enter_name", "Enter a profile name"),
        ("profiles.save", "Save"),
        ("profiles.cancel", "Cancel"),
        ("profiles.editing", "Editing"),
        ("profiles.desc_placeholder", "Description (optional)"),
        ("hotkeys.title", "Global Hotkeys"),
        ("hotkeys.tip", "Press the combination you want (e.g. Ctrl+Alt+1). Works system-wide, even in games."),
        ("hotkeys.edit", "Edit"),
        ("hotkeys.capture_hint", "Press a new combination... (Esc to cancel)"),
        ("hotkeys.conflict", "Conflict"),
        ("hotkeys.action", "Action"),
        ("hotkeys.spec", "Hotkey"),
        ("hotkeys.no_support", "Global hotkeys are not supported on this platform"),
        ("hotkeys.updated", "Hotkeys updated"),
        ("hotkey.action.restore_default", "Restore defaults"),
        ("hotkey.action.apply_profile", "Apply profile"),
        ("hotkey.action.show_window", "Show main window"),
        ("settings.title", "Settings"),
        ("settings.startup", "Launch at startup"),
        ("settings.close_to_tray", "Minimize to tray on close"),
        ("settings.language", "Language"),
        ("settings.theme", "Theme"),
        ("settings.dark", "Dark (Fluent Dark)"),
        ("settings.light", "Light (Fluent Light)"),
        ("settings.game_detection", "Game Auto-Switch"),
        ("settings.game_detection_tip", "Apply the matching profile when a game starts; restore defaults on exit."),
        ("settings.game_poll", "Poll interval (s)"),
        ("settings.game_rules", "Game rules"),
        ("settings.rule_exe", "Process"),
        ("settings.rule_profile", "Profile"),
        ("settings.rule_enabled", "Enabled"),
        ("settings.add_rule", "Add rule"),
        ("settings.rule_placeholder", "e.g. rust.exe"),
        ("settings.log_level", "Log level"),
        ("settings.about", "About"),
        ("settings.roadmap", "Roadmap"),
        ("settings.roadmap_items", "HDR · ICC Profile · Night Light · AMD/Intel Color · NVIDIA API · Auto HDR · CLI mode · Plugin system · Lua scripts · Auto update · i18n"),
        ("settings.no_telemetry", "No telemetry · No ads · Fully offline · Open source"),
        ("common.close", "Close"),
        ("common.add", "Add"),
        ("common.delete", "Delete"),
        ("common.off", "Off"),
        ("common.on", "On"),
        ("toast.hotkey_conflict", "Hotkey conflicts with another program"),
        ("toast.game_profile", "Game profile applied: "),
        ("toast.game_exited", "Game exited, defaults restored"),
        ("toast.restored", "Defaults restored"),
        ("toast.saved", "Saved"),
        ("toast.rule_saved", "Game rules saved"),
    ]
}

/// The dictionary of a language.
pub open spec fn entries_of(lang: Language) -> Seq<(&'static str, &'static str)> {
    match lang {
        Language::Zh => zh_entries(),
        Language::En => en_entries(),
    }
}

/// The text of a key in a dictionary: that of the first entry with the
/// key, or the key itself when no entry has it.
pub open spec fn lookup(table: Seq<(&'static str, &'static str)>, key: Seq<char>) -> Seq<char>
    decreases table.len(),
{
    if table.len() == 0 {
        key
    } else if table[0].0@ == key {
        table[0].1@
    } else {
        lookup(table.drop_first(), key)
    }
}

/// The simplified Chinese dictionary.
fn zh_table() -> (r: Vec<(&'static str, &'static str)>)
    ensures
        r@ == zh_entries(),
{
    let v = vec![
        ("app.title", "ScreenTune"),
        ("app.tagline", "Instant Display Control for Gamers"),
        ("app.version", "版本"),
        ("nav.display", "显示调节"),
        ("nav.profiles", "配置方案"),
        ("nav.hotkeys", "全局快捷键"),
        ("nav.settings", "设置"),
        ("nav.monitors", "显示器"),
        ("header.monitor", "显示器"),
        ("header.apply_all", "同步到全部显示器"),
        ("header.current_profile", "当前方案"),
        ("header.custom", "自定义"),
        ("display.gamma", "Gamma"),
        ("display.gamma_tip", "范围 50~150，默认 100。实时 Gamma 曲线调节。"),
        ("display.brightness", "亮度"),
        ("display.brightness_tip", "范围 0~100。支持 DDC/CI 时直控硬件，否则通过 Gamma 模拟。"),
        ("display.contrast", "对比度"),
        ("display.contrast_tip", "范围 50~150，默认 100。"),
        ("display.saturation", "饱和度"),
        ("display.saturation_tip", "范围 0~200%，默认 100%。模拟 NVIDIA Digital Vibrance。"),
        ("display.temperature", "色温"),
        ("display.temperature_tip", "范围 2500K~10000K，默认 6500K（D65）。"),
        ("display.restore", "恢复默认"),
        ("display.ddc", "DDC/CI 硬件直控"),
        ("display.gamma_mode", "Gamma 模拟"),
        ("display.no_monitor", "未检测到显示器"),
        ("display.reset_monitor", "恢复此显示器原始画面"),
        ("display.reset_monitor_tip", "将该显示器恢复到本程序启动前的原始 LUT 与亮度"),
        ("monitor.name", "名称"),
        ("monitor.resolution", "分辨率"),
        ("monitor.primary", "主显示器"),
        ("monitor.ddc", "DDC/CI"),
        ("monitor.brightness_now", "当前亮度"),
        ("monitor.refresh", "重新检测显示器"),
        ("monitor.refresh_tip", "显示器热插拔后点击刷新"),
        ("profiles.title", "配置方案"),
        ("profiles.apply", "应用方案"),
        ("profiles.new", "新建方案"),
        ("profiles.delete", "删除"),
        ("profiles.import", "导入 JSON"),
        ("profiles.export", "导出 JSON"),
        ("profiles.name", "名称"),
        ("profiles.desc", "描述"),
        ("profiles.hotkey", "快捷键"),
        ("profiles.none", "无"),
        ("profiles.builtin", "内置"),
        ("profiles.applied", "已应用"),
        ("profiles.delete_confirm", "确定删除方案"),
        ("profiles.import_hint", "将方案 JSON 粘贴到此处，点击导入。"),
        ("profiles.exported", "已导出到剪贴板"),
        ("profiles.imported", "方案已导入"),
        ("profiles.enter_name", "请输入方案名称"),
        ("profiles.save", "保存"),
        ("profiles.cancel", "取消"),
        ("profiles.editing", "正在编辑"),
        ("profiles.desc_placeholder", "方案描述（可选）"),
        ("hotkeys.title", "全局快捷键"),
        ("hotkeys.tip", "按下要设置的组合键（如 Ctrl+Alt+1）。系统级生效，游戏内也可用。"),
        ("hotkeys.edit", "修改"),
        ("hotkeys.capture_hint", "请按下新的组合键…（Esc 取消）"),
        ("hotkeys.conflict", "冲突"),
        ("hotkeys.action", "动作"),
        ("hotkeys.spec", "快捷键"),
        ("hotkeys.no_support", "当前平台不支持全局快捷键"),
        ("hotkeys.updated", "快捷键已更新"),
        ("hotkey.action.restore_default", "恢复默认"),
        ("hotkey.action.apply_profile", "应用方案"),
        ("hotkey.action.show_window", "显示主窗口"),
        ("settings.title", "设置"),
        ("settings.startup", "开机自动启动"),
        ("settings.close_to_tray", "关闭窗口时最小化到托盘"),
        ("settings.language", "语言 / Language"),
        ("settings.theme", "主题"),
        ("settings.dark", "深色（Fluent Dark）"),
        ("settings.light", "浅色（Fluent Light）"),
        ("settings.game_detection", "游戏自动切换配置"),
        ("settings.game_detection_tip", "游戏启动时自动应用对应方案，退出后恢复默认。"),
        ("settings.game_poll", "检测间隔（秒）"),
        ("settings.game_rules", "游戏规则"),
        ("settings.rule_exe", "进程名"),
        ("settings.rule_profile", "应用方案"),
        ("settings.rule_enabled", "启用"),
        ("settings.add_rule", "添加规则"),
        ("settings.rule_placeholder", "如 rust.exe"),
        ("settings.log_level", "日志级别"),
        ("settings.about", "关于"),
        ("settings.roadmap", "Roadmap"),
        ("settings.roadmap_items", "HDR · ICC Profile · Night Light · AMD/Intel Color · NVIDIA API · Auto HDR · 命令行模式 · 插件系统 · Lua 脚本 · 自动更新 · 国际化"),
        ("settings.no_telemetry", "无遥测 · 无广告 · 无需联网 · 开源"),
        ("common.close", "关闭"),
        ("common.add", "添加"),
        ("common.delete", "删除"),
        ("common.off", "关闭"),
        ("common.on", "开启"),
        ("toast.hotkey_conflict", "以下快捷键被其他程序占用"),
        ("toast.game_profile", "游戏方案已应用："),
        ("toast.game_exited", "游戏退出，已恢复默认"),
        ("toast.restored", "已恢复默认参数"),
        ("toast.saved", "已保存"),
        ("toast.rule_saved", "游戏规则已保存"),
    ];
    assert(v@ =~= zh_entries());
    v
}

/// The English dictionary.
fn en_table() -> (r: Vec<(&'static str, &'static str)>)
    ensures
        r@ == en_entries(),
{
    let v = vec![
        ("app.title", "ScreenTune"),
        ("app.tagline", "Instant Display Control for Gamers"),
        ("app.version", "Version"),
        ("nav.display", "Display"),
        ("nav.profiles", "Profiles"),
        ("nav.hotkeys", "Hotkeys"),
        ("nav.settings", "Settings"),
        ("nav.monitors", "Monitors"),
        ("header.monitor", "Monitor"),
        ("header.apply_all", "Apply to all monitors"),
        ("header.current_profile", "Current profile"),
        ("header.custom", "Custom"),
        ("display.gamma", "Gamma"),
        ("display.gamma_tip", "50~150, default 100. Real-time gamma curve."),
        ("display.brightness", "Brightness"),
        ("display.brightness_tip", "0~100. DDC/CI hardware control when supported, otherwise gamma simulation."),
        ("display.contrast", "Contrast"),
        ("display.contrast_tip", "50~150, default 100."),
        ("display.saturation", "Saturation"),
        ("display.saturation_tip", "0~200%, default 100%. NVIDIA Digital Vibrance style simulation."),
        ("display.temperature", "Color Temperature"),
        ("display.temperature_tip", "2500K~10000K, default 6500K (D65)."),
        ("display.restore", "Restore defaults"),
        ("display.ddc", "DDC/CI hardware control"),
        ("display.gamma_mode", "Gamma simulation"),
        ("display.no_monitor", "No monitor detected"),
        ("display.reset_monitor", "Restore this monitor"),
        ("display.reset_monitor_tip", "Restore this monitor to the original LUT and brightness at app start"),
        ("monitor.name", "Name"),
        ("monitor.resolution", "Resolution"),
        ("monitor.primary", "Primary"),
        ("monitor.ddc", "DDC/CI"),
        ("monitor.brightness_now", "Brightness"),
        ("monitor.refresh", "Re-scan monitors"),
        ("monitor.refresh_tip", "Refresh after monitor hot-plug"),
        ("profiles.title", "Profiles"),
        ("profiles.apply", "Apply"),
        ("profiles.new", "New profile"),
        ("profiles.delete", "Delete"),
        ("profiles.import", "Import JSON"),
        ("profiles.export", "Export JSON"),
        ("profiles.name", "Name"),
        ("profiles.desc", "Description"),
        ("profiles.hotkey", "Hotkey"),
        ("profiles.none", "None"),
        ("profiles.builtin", "Built-in"),
        ("profiles.applied", "Applied"),
        ("profiles.delete_confirm", "Delete profile"),
        ("profiles.import_hint", "Paste profile JSON here, then click Import."),
        ("profiles.exported", "Exported to clipboard"),
        ("profiles.imported", "Profile imported"),
        ("profiles.enter_name", "Enter a profile name"),
        ("profiles.save", "Save"),
        ("profiles.cancel", "Cancel"),
        ("profiles.editing", "Editing"),
        ("profiles.desc_placeholder", "Description (optional)"),
        ("hotkeys.title", "Global Hotkeys"),
        ("hotkeys.tip", "Press the combination you want (e.g. Ctrl+Alt+1). Works system-wide, even in games."),
        ("hotkeys.edit", "Edit"),
        ("hotkeys.capture_hint", "Press a new combination... (Esc to cancel)"),
        ("hotkeys.conflict", "Conflict"),
        ("hotkeys.action", "Action"),
        ("hotkeys.spec", "Hotkey"),
        ("hotkeys.no_support", "Global hotkeys are not supported on this platform"),
        ("hotkeys.updated", "Hotkeys updated"),
        ("hotkey.action.restore_default", "Restore defaults"),
        ("hotkey.action.apply_profile", "Apply profile"),
        ("hotkey.action.show_window", "Show main window"),
        ("settings.title", "Settings"),
        ("settings.startup", "Launch at startup"),
        ("settings.close_to_tray", "Minimize to tray on close"),
        ("settings.language", "Language"),
        ("settings.theme", "Theme"),
        ("settings.dark", "Dark (Fluent Dark)"),
        ("settings.light", "Light (Fluent Light)"),
        ("settings.game_detection", "Game Auto-Switch"),
        ("settings.game_detection_tip", "Apply the matching profile when a game starts; restore defaults on exit."),
        ("settings.game_poll", "Poll interval (s)"),
        ("settings.game_rules", "Game rules"),
        ("settings.rule_exe", "Process"),
        ("settings.rule_profile", "Profile"),
        ("settings.rule_enabled", "Enabled"),
        ("settings.add_rule", "Add rule"),
        ("settings.rule_placeholder", "e.g. rust.exe"),
        ("settings.log_level", "Log level"),
        ("settings.about", "About"),
        ("settings.roadmap", "Roadmap"),
        ("settings.roadmap_items", "HDR · ICC Profile · Night Light · AMD/Intel Color · NVIDIA API · Auto HDR · CLI mode · Plugin system · Lua scripts · Auto update · i18n"),
        ("settings.no_telemetry", "No telemetry · No ads · Fully offline · Open source"),
        ("common.close", "Close"),
        ("common.add", "Add"),
        ("common.delete", "Delete"),
        ("common.off", "Off"),
        ("common.on", "On"),
        ("toast.hotkey_conflict", "Hotkey conflicts with another program"),
        ("toast.game_profile", "Game profile applied: "),
        ("toast.game_exited", "Game exited, defaults restored"),
        ("toast.restored", "Defaults restored"),
        ("toast.saved", "Saved"),
        ("toast.rule_saved", "Game rules saved"),
    ];
    assert(v@ =~= en_entries());
    v
}

/// The dictionary of a language: keys and texts, in order.
pub fn dictionary(lang: Language) -> (r: Vec<(&'static str, &'static str)>)
    ensures
        r@ == entries_of(lang),
{
    match lang {
        Language::Zh => zh_table(),
        Language::En => en_table(),
    }
}

/// Translation handle for one language.
#[derive(Debug, Clone, Copy, PartialEq, Eq, Structural)]
pub struct Tr {
    lang: Language,
}

impl Tr {
    /// The language of the handle.
    pub closed spec fn language(&self) -> Language {
        self.lang
    }

    /// A handle for the language.
    pub fn new(lang: Language) -> (r: Tr)
        ensures
            r.language() == lang,
    {
        Tr { lang }
    }

    /// The language of the handle.
    pub fn lang(&self) -> (r: Language)
        ensures
            r == self.language(),
    {
        self.lang
    }

    /// The text of a key in the handle's language; the key itself when
    /// the dictionary lacks it.
    pub fn t(&self, key: &str) -> (r: String)
        ensures
            r@ == lookup(entries_of(self.language()), key@),
    {
        let table = dictionary(self.lang);
        let mut i: usize = 0;
        assert(table@.subrange(0, table@.len() as int) =~= table@);
        while i < table.len()
            invariant
                i <= table@.len(),
                table@ == entries_of(self.language()),
                lookup(table@, key@) == lookup(table@.subrange(i as int, table@.len() as int), key@),
            decreases table@.len() - i,
        {
            let ghost rest = table@.subrange(i as int, table@.len() as int);
            assert(rest.drop_first() =~= table@.subrange(i as int + 1, table@.len() as int));
            assert(rest[0] == table@[i as int]);
            if str_eq(table[i].0, key) {
                return String::from_str(table[i].1);
            }
            i = i + 1;
        }
        String::from_str(key)
    }
}

/// The keys of a dictionary, in order.
pub open spec fn keys(table: Seq<(&'static str, &'static str)>) -> Seq<Seq<char>> {
    table.map_values(|e: (&'static str, &'static str)| e.0@)
}

/// Both dictionaries hold the same keys in the same order, so that every
/// key has a text in either language.
pub proof fn law_dictionaries_parallel()
    ensures
        keys(zh_entries()) == keys(en_entries()),
{
    assert(keys(zh_entries()) =~= keys(en_entries()));
}

/// A key has an entry in the Chinese dictionary exactly when it has one in
/// the English dictionary: a key is translated in both languages or in
/// neither.
pub proof fn law_keys_in_both(k: Seq<char>)
    ensures
        (exists|i: int| 0 <= i < zh_entries().len() && (#[trigger] zh_entries()[i]).0@ == k) <==> (
        exists|i: int| 0 <= i < en_entries().len() && (#[trigger] en_entries()[i]).0@ == k),
{
    law_dictionaries_parallel();
    assert(zh_entries().len() == keys(zh_entries()).len());
    assert(en_entries().len() == keys(en_entries()).len());
    if exists|i: int| 0 <= i < zh_entries().len() && (#[trigger] zh_entries()[i]).0@ == k {
        let i = choose|i: int| 0 <= i < zh_entries().len() && (#[trigger] zh_entries()[i]).0@ == k;
        assert(keys(zh_entries())[i] == keys(en_entries())[i]);
        assert(en_entries()[i].0@ == k);
    }
    if exists|i: int| 0 <= i < en_entries().len() && (#[trigger] en_entries()[i]).0@ == k {
        let i = choose|i: int| 0 <= i < en_entries().len() && (#[trigger] en_entries()[i]).0@ == k;
        assert(keys(zh_entries())[i] == keys(en_entries())[i]);
        assert(zh_entries()[i].0@ == k);
    }
}

/// In the Chinese dictionary no text equals its key.
proof fn lemma_zh_texts_differ()
    ensures
        forall|i: int| 0 <= i < zh_entries().len() ==> (#[trigger] zh_entries()[i]).0@ != zh_entries()[i].1@,
{
    let t = zh_entries();
    assert(t.len() == 100);
    reveal_strlit("app.title");
    reveal_strlit("ScreenTune");
    assert(t[0].0@.len() != t[0].1@.len());
    reveal_strlit("app.tagline");
    reveal_strlit("Instant Display Control for Gamers");
    assert(t[1].0@.len() != t[1].1@.len());
    reveal_strlit("app.version");
    reveal_strlit("版本");
    assert(t[2].0@.len() != t[2].1@.len());
    reveal_strlit("nav.display");
    reveal_strlit("显示调节");
    assert(t[3].0@.len() != t[3].1@.len());
    reveal_strlit("nav.profiles");
    reveal_strlit("配置方案");
    assert(t[4].0@.len() != t[4].1@.len());
    reveal_strlit("nav.hotkeys");
    reveal_strlit("全局快捷键");
    assert(t[5].0@.len() != t[5].1@.len());
    reveal_strlit("nav.settings");
    reveal_strlit("设置");
    assert(t[6].0@.len() != t[6].1@.len());
    reveal_strlit("nav.monitors");
    reveal_strlit("显示器");
    assert(t[7].0@.len() != t[7].1@.len());
    reveal_strlit("header.monitor");
    assert(t[8].0@.len() != t[8].1@.len());
    reveal_strlit("header.apply_all");
    reveal_strlit("同步到全部显示器");
    assert(t[9].0@.len() != t[9].1@.len());
    reveal_strlit("header.current_profile");
    reveal_strlit("当前方案");
    assert(t[10].0@.len() != t[10].1@.len());
    reveal_strlit("header.custom");
    reveal_strlit("自定义");
    assert(t[11].0@.len() != t[11].1@.len());
    reveal_strlit("display.gamma");
    reveal_strlit("Gamma");
    assert(t[12].0@.len() != t[12].1@.len());
    reveal_strlit("display.gamma_tip");
    reveal_strlit("范围 50~150，默认 100。实时 Gamma 曲线调节。");
    assert(t[13].0@.len() != t[13].1@.len());
    reveal_strlit("display.brightness");
    reveal_strlit("亮度");
    assert(t[14].0@.len() != t[14].1@.len());
    reveal_strlit("display.brightness_tip");
    reveal_strlit("范围 0~100。支持 DDC/CI 时直控硬件，否则通过 Gamma 模拟。");
    assert(t[15].0@.len() != t[15].1@.len());
    reveal_strlit("display.contrast");
    reveal_strlit("对比度");
    assert(t[16].0@.len() != t[16].1@.len());
    reveal_strlit("display.contrast_tip");
    reveal_strlit("范围 50~150，默认 100。");
    assert(t[17].0@.len() != t[17].1@.len());
    reveal_strlit("display.saturation");
    reveal_strlit("饱和度");
    assert(t[18].0@.len() != t[18].1@.len());
    reveal_strlit("display.saturation_tip");
    reveal_strlit("范围 0~200%，默认 100%。模拟 NVIDIA Digital Vibrance。");
    assert(t[19].0@.len() != t[19].1@.len());
    reveal_strlit("display.temperature");
    reveal_strlit("色温");
    assert(t[20].0@.len() != t[20].1@.len());
    reveal_strlit("display.temperature_tip");
    reveal_strlit("范围 2500K~10000K，默认 6500K（D65）。");
    assert(t[21].0@.len() != t[21].1@.len());
    reveal_strlit("display.restore");
    reveal_strlit("恢复默认");
    assert(t[22].0@.len() != t[22].1@.len());
    reveal_strlit("display.ddc");
    reveal_strlit("DDC/CI 硬件直控");
    assert(t[23].0@[0] != t[23].1@[0]);
    reveal_strlit("display.gamma_mode");
    reveal_strlit("Gamma 模拟");
    assert(t[24].0@.len() != t[24].1@.len());
    reveal_strlit("display.no_monitor");
    reveal_strlit("未检测到显示器");
    assert(t[25].0@.len() != t[25].1@.len());
    reveal_strlit("display.reset_monitor");
    reveal_strlit("恢复此显示器原始画面");
    assert(t[26].0@.len() != t[26].1@.len());
    reveal_strlit("display.reset_monitor_tip");
    reveal_strlit("将该显示器恢复到本程序启动前的原始 LUT 与亮度");
    assert(t[27].0@[0] != t[27].1@[0]);
    reveal_strlit("monitor.name");
    reveal_strlit("名称");
    assert(t[28].0@.len() != t[28].1@.len());
    reveal_strlit("monitor.resolution");
    reveal_strlit("分辨率");
    assert(t[29].0@.len() != t[29].1@.len());
    reveal_strlit("monitor.primary");
    reveal_strlit("主显示器");
    assert(t[30].0@.len() != t[30].1@.len());
    reveal_strlit("monitor.ddc");
    reveal_strlit("DDC/CI");
    assert(t[31].0@.len() != t[31].1@.len());
    reveal_strlit("monitor.brightness_now");
    reveal_strlit("当前亮度");
    assert(t[32].0@.len() != t[32].1@.len());
    reveal_strlit("monitor.refresh");
    reveal_strlit("重新检测显示器");
    assert(t[33].0@.len() != t[33].1@.len());
    reveal_strlit("monitor.refresh_tip");
    reveal_strlit("显示器热插拔后点击刷新");
    assert(t[34].0@.len() != t[34].1@.len());
    reveal_strlit("profiles.title");
    assert(t[35].0@.len() != t[35].1@.len());
    reveal_strlit("profiles.apply");
    reveal_strlit("应用方案");
    assert(t[36].0@.len() != t[36].1@.len());
    reveal_strlit("profiles.new");
    reveal_strlit("新建方案");
    assert(t[37].0@.len() != t[37].1@.len());
    reveal_strlit("profiles.delete");
    reveal_strlit("删除");
    assert(t[38].0@.len() != t[38].1@.len());
    reveal_strlit("profiles.import");
    reveal_strlit("导入 JSON");
    assert(t[39].0@.len() != t[39].1@.len());
    reveal_strlit("profiles.export");
    reveal_strlit("导出 JSON");
    assert(t[40].0@.len() != t[40].1@.len());
    reveal_strlit("profiles.name");
    assert(t[41].0@.len() != t[41].1@.len());
    reveal_strlit("profiles.desc");
    reveal_strlit("描述");
    assert(t[42].0@.len() != t[42].1@.len());
    reveal_strlit("profiles.hotkey");
    reveal_strlit("快捷键");
    assert(t[43].0@.len() != t[43].1@.len());
    reveal_strlit("profiles.none");
    reveal_strlit("无");
    assert(t[44].0@.len() != t[44].1@.len());
    reveal_strlit("profiles.builtin");
    reveal_strlit("内置");
    assert(t[45].0@.len() != t[45].1@.len());
    reveal_strlit("profiles.applied");
    reveal_strlit("已应用");
    assert(t[46].0@.len() != t[46].1@.len());
    reveal_strlit("profiles.delete_confirm");
    reveal_strlit("确定删除方案");
    assert(t[47].0@.len() != t[47].1@.len());
    reveal_strlit("profiles.import_hint");
    reveal_strlit("将方案 JSON 粘贴到此处，点击导入。");
    assert(t[48].0@[0] != t[48].1@[0]);
    reveal_strlit("profiles.exported");
    reveal_strlit("已导出到剪贴板");
    assert(t[49].0@.len() != t[49].1@.len());
    reveal_strlit("profiles.imported");
    reveal_strlit("方案已导入");
    assert(t[50].0@.len() != t[50].1@.len());
    reveal_strlit("profiles.enter_name");
    reveal_strlit("请输入方案名称");
    assert(t[51].0@.len() != t[51].1@.len());
    reveal_strlit("profiles.save");
    reveal_strlit("保存");
    assert(t[52].0@.len() != t[52].1@.len());
    reveal_strlit("profiles.cancel");
    reveal_strlit("取消");
    assert(t[53].0@.len() != t[53].1@.len());
    reveal_strlit("profiles.editing");
    reveal_strlit("正在编辑");
    assert(t[54].0@.len() != t[54].1@.len());
    reveal_strlit("profiles.desc_placeholder");
    reveal_strlit("方案描述（可选）");
    assert(t[55].0@.len() != t[55].1@.len());
    reveal_strlit("hotkeys.title");
    assert(t[56].0@.len() != t[56].1@.len());
    reveal_strlit("hotkeys.tip");
    reveal_strlit("按下要设置的组合键（如 Ctrl+Alt+1）。系统级生效，游戏内也可用。");
    assert(t[57].0@.len() != t[57].1@.len());
    reveal_strlit("hotkeys.edit");
    reveal_strlit("修改");
    assert(t[58].0@.len() != t[58].1@.len());
    reveal_strlit("hotkeys.capture_hint");
    reveal_strlit("请按下新的组合键…（Esc 取消）");
    assert(t[59].0@.len() != t[59].1@.len());
    reveal_strlit("hotkeys.conflict");
    reveal_strlit("冲突");
    assert(t[60].0@.len() != t[60].1@.len());
    reveal_strlit("hotkeys.action");
    reveal_strlit("动作");
    assert(t[61].0@.len() != t[61].1@.len());
    reveal_strlit("hotkeys.spec");
    assert(t[62].0@.len() != t[62].1@.len());
    reveal_strlit("hotkeys.no_support");
    reveal_strlit("当前平台不支持全局快捷键");
    assert(t[63].0@.len() != t[63].1@.len());
    reveal_strlit("hotkeys.updated");
    reveal_strlit("快捷键已更新");
    assert(t[64].0@.len() != t[64].1@.len());
    reveal_strlit("hotkey.action.restore_default");
    assert(t[65].0@.len() != t[65].1@.len());
    reveal_strlit("hotkey.action.apply_profile");
    assert(t[66].0@.len() != t[66].1@.len());
    reveal_strlit("hotkey.action.show_window");
    reveal_strlit("显示主窗口");
    assert(t[67].0@.len() != t[67].1@.len());
    reveal_strlit("settings.title");
    assert(t[68].0@.len() != t[68].1@.len());
    reveal_strlit("settings.startup");
    reveal_strlit("开机自动启动");
    assert(t[69].0@.len() != t[69].1@.len());
    reveal_strlit("settings.close_to_tray");
    reveal_strlit("关闭窗口时最小化到托盘");
    assert(t[70].0@.len() != t[70].1@.len());
    reveal_strlit("settings.language");
    reveal_strlit("语言 / Language");
    assert(t[71].0@.len() != t[71].1@.len());
    reveal_strlit("settings.theme");
    reveal_strlit("主题");
    assert(t[72].0@.len() != t[72].1@.len());
    reveal_strlit("settings.dark");
    reveal_strlit("深色（Fluent Dark）");
    assert(t[73].0@.len() != t[73].1@.len());
    reveal_strlit("settings.light");
    reveal_strlit("浅色（Fluent Light）");
    assert(t[74].0@.len() != t[74].1@.len());
    reveal_strlit("settings.game_detection");
    reveal_strlit("游戏自动切换配置");
    assert(t[75].0@.len() != t[75].1@.len());
    reveal_strlit("settings.game_detection_tip");
    reveal_strlit("游戏启动时自动应用对应方案，退出后恢复默认。");
    assert(t[76].0@.len() != t[76].1@.len());
    reveal_strlit("settings.game_poll");
    reveal_strlit("检测间隔（秒）");
    assert(t[77].0@.len() != t[77].1@.len());
    reveal_strlit("settings.game_rules");
    reveal_strlit("游戏规则");
    assert(t[78].0@.len() != t[78].1@.len());
    reveal_strlit("settings.rule_exe");
    reveal_strlit("进程名");
    assert(t[79].0@.len() != t[79].1@.len());
    reveal_strlit("settings.rule_profile");
    assert(t[80].0@.len() != t[80].1@.len());
    reveal_strlit("settings.rule_enabled");
    reveal_strlit("启用");
    assert(t[81].0@.len() != t[81].1@.len());
    reveal_strlit("settings.add_rule");
    reveal_strlit("添加规则");
    assert(t[82].0@.len() != t[82].1@.len());
    reveal_strlit("settings.rule_placeholder");
    reveal_strlit("如 rust.exe");
    assert(t[83].0@.len() != t[83].1@.len());
    reveal_strlit("settings.log_level");
    reveal_strlit("日志级别");
    assert(t[84].0@.len() != t[84].1@.len());
    reveal_strlit("settings.about");
    reveal_strlit("关于");
    assert(t[85].0@.len() != t[85].1@.len());
    reveal_strlit("settings.roadmap");
    reveal_strlit("Roadmap");
    assert(t[86].0@.len() != t[86].1@.len());
    reveal_strlit("settings.roadmap_items");
    reveal_strlit("HDR · ICC Profile · Night Light · AMD/Intel Color · NVIDIA API · Auto HDR · 命令行模式 · 插件系统 · Lua 脚本 · 自动更新 · 国际化");
    assert(t[87].0@.len() != t[87].1@.len());
    reveal_strlit("settings.no_telemetry");
    reveal_strlit("无遥测 · 无广告 · 无需联网 · 开源");
    assert(t[88].0@[0] != t[88].1@[0]);
    reveal_strlit("common.close");
    reveal_strlit("关闭");
    assert(t[89].0@.len() != t[89].1@.len());
    reveal_strlit("common.add");
    reveal_strlit("添加");
    assert(t[90].0@.len() != t[90].1@.len());
    reveal_strlit("common.delete");
    assert(t[91].0@.len() != t[91].1@.len());
    reveal_strlit("common.off");
    assert(t[92].0@.len() != t[92].1@.len());
    reveal_strlit("common.on");
    reveal_strlit("开启");
    assert(t[93].0@.len() != t[93].1@.len());
    reveal_strlit("toast.hotkey_conflict");
    reveal_strlit("以下快捷键被其他程序占用");
    assert(t[94].0@.len() != t[94].1@.len());
    reveal_strlit("toast.game_profile");
    reveal_strlit("游戏方案已应用：");
    assert(t[95].0@.len() != t[95].1@.len());
    reveal_strlit("toast.game_exited");
    reveal_strlit("游戏退出，已恢复默认");
    assert(t[96].0@.len() != t[96].1@.len());
    reveal_strlit("toast.restored");
    reveal_strlit("已恢复默认参数");
    assert(t[97].0@.len() != t[97].1@.len());
    reveal_strlit("toast.saved");
    reveal_strlit("已保存");
    assert(t[98].0@.len() != t[98].1@.len());
    reveal_strlit("toast.rule_saved");
    reveal_strlit("游戏规则已保存");
    assert(t[99].0@.len() != t[99].1@.len());
    assert forall|i: int| 0 <= i < t.len() implies (#[trigger] t[i]).0@ != t[i].1@ by {
        assert(i == 0 || i == 1 || i == 2 || i == 3 || i == 4 || i == 5 || i == 6 || i == 7 || i == 8 || i == 9 || i == 10 || i == 11 || i == 12 || i == 13 || i == 14 || i == 15 || i == 16 || i == 17 || i == 18 || i == 19 || i == 20 || i == 21 || i == 22 || i == 23 || i == 24 || i == 25 || i == 26 || i == 27 || i == 28 || i == 29 || i == 30 || i == 31 || i == 32 || i == 33 || i == 34 || i == 35 || i == 36 || i == 37 || i == 38 || i == 39 || i == 40 || i == 41 || i == 42 || i == 43 || i == 44 || i == 45 || i == 46 || i == 47 || i == 48 || i == 49 || i == 50 || i == 51 || i == 52 || i == 53 || i == 54 || i == 55 || i == 56 || i == 57 || i == 58 || i == 59 || i == 60 || i == 61 || i == 62 || i == 63 || i == 64 || i == 65 || i == 66 || i == 67 || i == 68 || i == 69 || i == 70 || i == 71 || i == 72 || i == 73 || i == 74 || i == 75 || i == 76 || i == 77 || i == 78 || i == 79 || i == 80 || i == 81 || i == 82 || i == 83 || i == 84 || i == 85 || i == 86 || i == 87 || i == 88 || i == 89 || i == 90 || i == 91 || i == 92 || i == 93 || i == 94 || i == 95 || i == 96 || i == 97 || i == 98 || i == 99);
    }
}

/// In the English dictionary no text equals its key.
proof fn lemma_en_texts_differ()
    ensures
        forall|i: int| 0 <= i < en_entries().len() ==> (#[trigger] en_entries()[i]).0@ != en_entries()[i].1@,
{
    let t = en_entries();
    assert(t.len() == 100);
    reveal_strlit("app.title");
    reveal_strlit("ScreenTune");
    assert(t[0].0@.len() != t[0].1@.len());
    reveal_strlit("app.tagline");
    reveal_strlit("Instant Display Control for Gamers");
    assert(t[1].0@.len() != t[1].1@.len());
    reveal_strlit("app.version");
    reveal_strlit("Version");
    assert(t[2].0@.len() != t[2].1@.len());
    reveal_strlit("nav.display");
    reveal_strlit("Display");
    assert(t[3].0@.len() != t[3].1@.len());
    reveal_strlit("nav.profiles");
    reveal_strlit("Profiles");
    assert(t[4].0@.len() != t[4].1@.len());
    reveal_strlit("nav.hotkeys");
    reveal_strlit("Hotkeys");
    assert(t[5].0@.len() != t[5].1@.len());
    reveal_strlit("nav.settings");
    reveal_strlit("Settings");
    assert(t[6].0@.len() != t[6].1@.len());
    reveal_strlit("nav.monitors");
    reveal_strlit("Monitors");
    assert(t[7].0@.len() != t[7].1@.len());
    reveal_strlit("header.monitor");
    reveal_strlit("Monitor");
    assert(t[8].0@.len() != t[8].1@.len());
    reveal_strlit("header.apply_all");
    reveal_strlit("Apply to all monitors");
    assert(t[9].0@.len() != t[9].1@.len());
    reveal_strlit("header.current_profile");
    reveal_strlit("Current profile");
    assert(t[10].0@.len() != t[10].1@.len());
    reveal_strlit("header.custom");
    reveal_strlit("Custom");
    assert(t[11].0@.len() != t[11].1@.len());
    reveal_strlit("display.gamma");
    reveal_strlit("Gamma");
    assert(t[12].0@.len() != t[12].1@.len());
    reveal_strlit("display.gamma_tip");
    reveal_strlit("50~150, default 100. Real-time gamma curve.");
    assert(t[13].0@.len() != t[13].1@.len());
    reveal_strlit("display.brightness");
    reveal_strlit("Brightness");
    assert(t[14].0@.len() != t[14].1@.len());
    reveal_strlit("display.brightness_tip");
    reveal_strlit("0~100. DDC/CI hardware control when supported, otherwise gamma simulation.");
    assert(t[15].0@.len() != t[15].1@.len());
    reveal_strlit("display.contrast");
    reveal_strlit("Contrast");
    assert(t[16].0@.len() != t[16].1@.len());
    reveal_strlit("display.contrast_tip");
    reveal_strlit("50~150, default 100.");
    assert(t[17].0@[0] != t[17].1@[0]);
    reveal_strlit("display.saturation");
    reveal_strlit("Saturation");
    assert(t[18].0@.len() != t[18].1@.len());
    reveal_strlit("display.saturation_tip");
    reveal_strlit("0~200%, default 100%. NVIDIA Digital Vibrance style simulation.");
    assert(t[19].0@.len() != t[19].1@.len());
    reveal_strlit("display.temperature");
    reveal_strlit("Color Temperature");
    assert(t[20].0@.len() != t[20].1@.len());
    reveal_strlit("display.temperature_tip");
    reveal_strlit("2500K~10000K, default 6500K (D65).");
    assert(t[21].0@.len() != t[21].1@.len());
    reveal_strlit("display.restore");
    reveal_strlit("Restore defaults");
    assert(t[22].0@.len() != t[22].1@.len());
    reveal_strlit("display.ddc");
    reveal_strlit("DDC/CI hardware control");
    assert(t[23].0@.len() != t[23].1@.len());
    reveal_strlit("display.gamma_mode");
    reveal_strlit("Gamma simulation");
    assert(t[24].0@.len() != t[24].1@.len());
    reveal_strlit("display.no_monitor");
    reveal_strlit("No monitor detected");
    assert(t[25].0@.len() != t[25].1@.len());
    reveal_strlit("display.reset_monitor");
    reveal_strlit("Restore this monitor");
    assert(t[26].0@.len() != t[26].1@.len());
    reveal_strlit("display.reset_monitor_tip");
    reveal_strlit("Restore this monitor to the original LUT and brightness at app start");
    assert(t[27].0@.len() != t[27].1@.len());
    reveal_strlit("monitor.name");
    reveal_strlit("Name");
    assert(t[28].0@.len() != t[28].1@.len());
    reveal_strlit("monitor.resolution");
    reveal_strlit("Resolution");
    assert(t[29].0@.len() != t[29].1@.len());
    reveal_strlit("monitor.primary");
    reveal_strlit("Primary");
    assert(t[30].0@.len() != t[30].1@.len());
    reveal_strlit("monitor.ddc");
    reveal_strlit("DDC/CI");
    assert(t[31].0@.len() != t[31].1@.len());
    reveal_strlit("monitor.brightness_now");
    assert(t[32].0@.len() != t[32].1@.len());
    reveal_strlit("monitor.refresh");
    reveal_strlit("Re-scan monitors");
    assert(t[33].0@.len() != t[33].1@.len());
    reveal_strlit("monitor.refresh_tip");
    reveal_strlit("Refresh after monitor hot-plug");
    assert(t[34].0@.len() != t[34].1@.len());
    reveal_strlit("profiles.title");
    assert(t[35].0@.len() != t[35].1@.len());
    reveal_strlit("profiles.apply");
    reveal_strlit("Apply");
    assert(t[36].0@.len() != t[36].1@.len());
    reveal_strlit("profiles.new");
    reveal_strlit("New profile");
    assert(t[37].0@.len() != t[37].1@.len());
    reveal_strlit("profiles.delete");
    reveal_strlit("Delete");
    assert(t[38].0@.len() != t[38].1@.len());
    reveal_strlit("profiles.import");
    reveal_strlit("Import JSON");
    assert(t[39].0@.len() != t[39].1@.len());
    reveal_strlit("profiles.export");
    reveal_strlit("Export JSON");
    assert(t[40].0@.len() != t[40].1@.len());
    reveal_strlit("profiles.name");
    assert(t[41].0@.len() != t[41].1@.len());
    reveal_strlit("profiles.desc");
    reveal_strlit("Description");
    assert(t[42].0@.len() != t[42].1@.len());
    reveal_strlit("profiles.hotkey");
    reveal_strlit("Hotkey");
    assert(t[43].0@.len() != t[43].1@.len());
    reveal_strlit("profiles.none");
    reveal_strlit("None");
    assert(t[44].0@.len() != t[44].1@.len());
    reveal_strlit("profiles.builtin");
    reveal_strlit("Built-in");
    assert(t[45].0@.len() != t[45].1@.len());
    reveal_strlit("profiles.applied");
    reveal_strlit("Applied");
    assert(t[46].0@.len() != t[46].1@.len());
    reveal_strlit("profiles.delete_confirm");
    reveal_strlit("Delete profile");
    assert(t[47].0@.len() != t[47].1@.len());
    reveal_strlit("profiles.import_hint");
    reveal_strlit("Paste profile JSON here, then click Import.");
    assert(t[48].0@.len() != t[48].1@.len());
    reveal_strlit("profiles.exported");
    reveal_strlit("Exported to clipboard");
    assert(t[49].0@.len() != t[49].1@.len());
    reveal_strlit("profiles.imported");
    reveal_strlit("Profile imported");
    assert(t[50].0@.len() != t[50].1@.len());
    reveal_strlit("profiles.enter_name");
    reveal_strlit("Enter a profile name");
    assert(t[51].0@.len() != t[51].1@.len());
    reveal_strlit("profiles.save");
    reveal_strlit("Save");
    assert(t[52].0@.len() != t[52].1@.len());
    reveal_strlit("profiles.cancel");
    reveal_strlit("Cancel");
    assert(t[53].0@.len() != t[53].1@.len());
    reveal_strlit("profiles.editing");
    reveal_strlit("Editing");
    assert(t[54].0@.len() != t[54].1@.len());
    reveal_strlit("profiles.desc_placeholder");
    reveal_strlit("Description (optional)");
    assert(t[55].0@.len() != t[55].1@.len());
    reveal_strlit("hotkeys.title");
    reveal_strlit("Global Hotkeys");
    assert(t[56].0@.len() != t[56].1@.len());
    reveal_strlit("hotkeys.tip");
    reveal_strlit("Press the combination you want (e.g. Ctrl+Alt+1). Works system-wide, even in games.");
    assert(t[57].0@.len() != t[57].1@.len());
    reveal_strlit("hotkeys.edit");
    reveal_strlit("Edit");
    assert(t[58].0@.len() != t[58].1@.len());
    reveal_strlit("hotkeys.capture_hint");
    reveal_strlit("Press a new combination... (Esc to cancel)");
    assert(t[59].0@.len() != t[59].1@.len());
    reveal_strlit("hotkeys.conflict");
    reveal_strlit("Conflict");
    assert(t[60].0@.len() != t[60].1@.len());
    reveal_strlit("hotkeys.action");
    reveal_strlit("Action");
    assert(t[61].0@.len() != t[61].1@.len());
    reveal_strlit("hotkeys.spec");
    assert(t[62].0@.len() != t[62].1@.len());
    reveal_strlit("hotkeys.no_support");
    reveal_strlit("Global hotkeys are not supported on this platform");
    assert(t[63].0@.len() != t[63].1@.len());
    reveal_strlit("hotkeys.updated");
    reveal_strlit("Hotkeys updated");
    assert(t[64].0@[0] != t[64].1@[0]);
    reveal_strlit("hotkey.action.restore_default");
    assert(t[65].0@.len() != t[65].1@.len());
    reveal_strlit("hotkey.action.apply_profile");
    reveal_strlit("Apply profile");
    assert(t[66].0@.len() != t[66].1@.len());
    reveal_strlit("hotkey.action.show_window");
    reveal_strlit("Show main window");
    assert(t[67].0@.len() != t[67].1@.len());
    reveal_strlit("settings.title");
    assert(t[68].0@.len() != t[68].1@.len());
    reveal_strlit("settings.startup");
    reveal_strlit("Launch at startup");
    assert(t[69].0@.len() != t[69].1@.len());
    reveal_strlit("settings.close_to_tray");
    reveal_strlit("Minimize to tray on close");
    assert(t[70].0@.len() != t[70].1@.len());
    reveal_strlit("settings.language");
    reveal_strlit("Language");
    assert(t[71].0@.len() != t[71].1@.len());
    reveal_strlit("settings.theme");
    reveal_strlit("Theme");
    assert(t[72].0@.len() != t[72].1@.len());
    reveal_strlit("settings.dark");
    reveal_strlit("Dark (Fluent Dark)");
    assert(t[73].0@.len() != t[73].1@.len());
    reveal_strlit("settings.light");
    reveal_strlit("Light (Fluent Light)");
    assert(t[74].0@.len() != t[74].1@.len());
    reveal_strlit("settings.game_detection");
    reveal_strlit("Game Auto-Switch");
    assert(t[75].0@.len() != t[75].1@.len());
    reveal_strlit("settings.game_detection_tip");
    reveal_strlit("Apply the matching profile when a game starts; restore defaults on exit.");
    assert(t[76].0@.len() != t[76].1@.len());
    reveal_strlit("settings.game_poll");
    reveal_strlit("Poll interval (s)");
    assert(t[77].0@.len() != t[77].1@.len());
    reveal_strlit("settings.game_rules");
    reveal_strlit("Game rules");
    assert(t[78].0@.len() != t[78].1@.len());
    reveal_strlit("settings.rule_exe");
    reveal_strlit("Process");
    assert(t[79].0@.len() != t[79].1@.len());
    reveal_strlit("settings.rule_profile");
    reveal_strlit("Profile");
    assert(t[80].0@.len() != t[80].1@.len());
    reveal_strlit("settings.rule_enabled");
    reveal_strlit("Enabled");
    assert(t[81].0@.len() != t[81].1@.len());
    reveal_strlit("settings.add_rule");
    reveal_strlit("Add rule");
    assert(t[82].0@.len() != t[82].1@.len());
    reveal_strlit("settings.rule_placeholder");
    reveal_strlit("e.g. rust.exe");
    assert(t[83].0@.len() != t[83].1@.len());
    reveal_strlit("settings.log_level");
    reveal_strlit("Log level");
    assert(t[84].0@.len() != t[84].1@.len());
    reveal_strlit("settings.about");
    reveal_strlit("About");
    assert(t[85].0@.len() != t[85].1@.len());
    reveal_strlit("settings.roadmap");
    reveal_strlit("Roadmap");
    assert(t[86].0@.len() != t[86].1@.len());
    reveal_strlit("settings.roadmap_items");
    reveal_strlit("HDR · ICC Profile · Night Light · AMD/Intel Color · NVIDIA API · Auto HDR · CLI mode · Plugin system · Lua scripts · Auto update · i18n");
    assert(t[87].0@.len() != t[87].1@.len());
    reveal_strlit("settings.no_telemetry");
    reveal_strlit("No telemetry · No ads · Fully offline · Open source");
    assert(t[88].0@.len() != t[88].1@.len());
    reveal_strlit("common.close");
    reveal_strlit("Close");
    assert(t[89].0@.len() != t[89].1@.len());
    reveal_strlit("common.add");
    reveal_strlit("Add");
    assert(t[90].0@.len() != t[90].1@.len());
    reveal_strlit("common.delete");
    assert(t[91].0@.len() != t[91].1@.len());
    reveal_strlit("common.off");
    reveal_strlit("Off");
    assert(t[92].0@.len() != t[92].1@.len());
    reveal_strlit("common.on");
    reveal_strlit("On");
    assert(t[93].0@.len() != t[93].1@.len());
    reveal_strlit("toast.hotkey_conflict");
    reveal_strlit("Hotkey conflicts with another program");
    assert(t[94].0@.len() != t[94].1@.len());
    reveal_strlit("toast.game_profile");
    reveal_strlit("Game profile applied: ");
    assert(t[95].0@.len() != t[95].1@.len());
    reveal_strlit("toast.game_exited");
    reveal_strlit("Game exited, defaults restored");
    assert(t[96].0@.len() != t[96].1@.len());
    reveal_strlit("toast.restored");
    reveal_strlit("Defaults restored");
    assert(t[97].0@.len() != t[97].1@.len());
    reveal_strlit("toast.saved");
    reveal_strlit("Saved");
    assert(t[98].0@.len() != t[98].1@.len());
    reveal_strlit("toast.rule_saved");
    reveal_strlit("Game rules saved");
    assert(t[99].0@[0] != t[99].1@[0]);
    assert forall|i: int| 0 <= i < t.len() implies (#[trigger] t[i]).0@ != t[i].1@ by {
        assert(i == 0 || i == 1 || i == 2 || i == 3 || i == 4 || i == 5 || i == 6 || i == 7 || i == 8 || i == 9 || i == 10 || i == 11 || i == 12 || i == 13 || i == 14 || i == 15 || i == 16 || i == 17 || i == 18 || i == 19 || i == 20 || i == 21 || i == 22 || i == 23 || i == 24 || i == 25 || i == 26 || i == 27 || i == 28 || i == 29 || i == 30 || i == 31 || i == 32 || i == 33 || i == 34 || i == 35 || i == 36 || i == 37 || i == 38 || i == 39 || i == 40 || i == 41 || i == 42 || i == 43 || i == 44 || i == 45 || i == 46 || i == 47 || i == 48 || i == 49 || i == 50 || i == 51 || i == 52 || i == 53 || i == 54 || i == 55 || i == 56 || i == 57 || i == 58 || i == 59 || i == 60 || i == 61 || i == 62 || i == 63 || i == 64 || i == 65 || i == 66 || i == 67 || i == 68 || i == 69 || i == 70 || i == 71 || i == 72 || i == 73 || i == 74 || i == 75 || i == 76 || i == 77 || i == 78 || i == 79 || i == 80 || i == 81 || i == 82 || i == 83 || i == 84 || i == 85 || i == 86 || i == 87 || i == 88 || i == 89 || i == 90 || i == 91 || i == 92 || i == 93 || i == 94 || i == 95 || i == 96 || i == 97 || i == 98 || i == 99);
    }
}

/// No text of a dictionary equals its key: whatever a dictionary holds is
/// shown translated.
pub proof fn law_texts_differ_from_keys(lang: Language, i: int)
    requires
        0 <= i < entries_of(lang).len(),
    ensures
        entries_of(lang)[i].0@ != entries_of(lang)[i].1@,
{
    lemma_zh_texts_differ();
    lemma_en_texts_differ();
}

/// In a dictionary whose texts differ from their keys, looking a key up
/// gives the key itself exactly when no entry has it.
proof fn lemma_lookup_is_key(t: Seq<(&'static str, &'static str)>, k: Seq<char>)
    requires
        forall|i: int| 0 <= i < t.len() ==> (#[trigger] t[i]).0@ != t[i].1@,
    ensures
        (lookup(t, k) == k) <==> !(exists|i: int| 0 <= i < t.len() && (#[trigger] t[i]).0@ == k),
    decreases t.len(),
{
    if t.len() > 0 {
        let u = t.drop_first();
        assert forall|i: int| 0 <= i < u.len() implies (#[trigger] u[i]).0@ != u[i].1@ by {
            assert(u[i] == t[i + 1]);
        }
        lemma_lookup_is_key(u, k);
        if t[0].0@ == k {
            assert(t[0].0@ != t[0].1@);
        } else {
            if exists|i: int| 0 <= i < t.len() && (#[trigger] t[i]).0@ == k {
                let i = choose|i: int| 0 <= i < t.len() && (#[trigger] t[i]).0@ == k;
                assert(u[i - 1] == t[i]);
            }
            if exists|i: int| 0 <= i < u.len() && (#[trigger] u[i]).0@ == k {
                let i = choose|i: int| 0 <= i < u.len() && (#[trigger] u[i]).0@ == k;
                assert(t[i + 1] == u[i]);
            }
        }
    }
}

/// A key is shown as it is in Chinese exactly when it is shown as it is in
/// English: it is translated in both languages or in neither.
pub proof fn law_translated_in_both(k: Seq<char>)
    ensures
        (lookup(zh_entries(), k) == k) <==> (lookup(en_entries(), k) == k),
{
    lemma_zh_texts_differ();
    lemma_en_texts_differ();
    lemma_lookup_is_key(zh_entries(), k);
    lemma_lookup_is_key(en_entries(), k);
    law_keys_in_both(k);
}

/// The key describing each hotkey action has an entry in the dictionary
/// of each language, so its text there is not the key itself.
pub proof fn law_action_keys_translated(a: HotkeyAction, lang: Language)
    ensures
        exists|i: int|
            0 <= i < entries_of(lang).len() && (#[trigger] entries_of(lang)[i]).0@ == description_key_spec(a),
        lookup(entries_of(lang), description_key_spec(a)) != description_key_spec(a),
{
    let t = entries_of(lang);
    lemma_zh_texts_differ();
    lemma_en_texts_differ();
    lemma_lookup_is_key(t, description_key_spec(a));
    assert(t.len() == 100);
    match a {
        HotkeyAction::RestoreDefault => {
            assert(t[65].0@ == description_key_spec(a));
        },
        HotkeyAction::ApplyProfile { .. } => {
            assert(t[66].0@ == description_key_spec(a));
        },
        HotkeyAction::ShowWindow => {
            assert(t[67].0@ == description_key_spec(a));
        },
    }
}

} // verus!
