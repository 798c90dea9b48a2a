//! The configuration values this core consumes, owned elsewhere and read
//! here: display flags, nick decorations, and capacities.
use vstd::prelude::*;

verus! {

/// The character set an inline-image renderer may draw with.
#[derive(Debug, Clone, Copy, PartialEq, Eq, Structural)]
pub enum Charset {
    All,
    NoSlopes,
    Blocks,
    Halfs,
}

/// Display options.
pub struct LookConfig {
    pub nick_prefix: String,
    pub nick_suffix: String,
    pub auto_open_tracing: bool,
    pub typing_list_style: i32,
    pub typing_list_max: i32,
    pub show_formatting_chars: bool,
    pub show_unknown_user_ids: bool,
    pub message_fetch_count: i32,
    pub readonly_value: String,
    pub image_max_height: i32,
    pub image_charset: Charset,
}

impl Default for LookConfig {
    fn default() -> (r: LookConfig)
        ensures
            r.nick_prefix@ == Seq::<char>::empty(),
            r.nick_suffix@ == Seq::<char>::empty(),
            !r.auto_open_tracing,
            r.typing_list_style == 0,
            r.typing_list_max == 5,
            r.show_formatting_chars,
            !r.show_unknown_user_ids,
            r.message_fetch_count == 50,
            r.readonly_value@ == "\u{1f512}"@,
            r.image_max_height == 40,
            r.image_charset == Charset::Blocks,
    {
        LookConfig {
            auto_open_tracing: false,
            show_formatting_chars: true,
            show_unknown_user_ids: false,
            nick_prefix: String::new(),
            nick_suffix: String::new(),
            typing_list_max: 5,
            typing_list_style: 0,
            message_fetch_count: 50,
            readonly_value: "\u{1f512}".to_owned(),
            image_max_height: 40,
            image_charset: Charset::Blocks,
        }
    }
}

/// Color options for the nick decorations.
pub struct ColorConfig {
    pub nick_prefix_color: String,
    pub nick_suffix_color: String,
}

impl Default for ColorConfig {
    fn default() -> (r: ColorConfig)
        ensures
            r.nick_prefix_color@ == Seq::<char>::empty(),
            r.nick_suffix_color@ == Seq::<char>::empty(),
    {
        ColorConfig { nick_prefix_color: String::new(), nick_suffix_color: String::new() }
    }
}

/// The whole readable configuration.
pub struct InnerConfig {
    pub look: LookConfig,
    pub color: ColorConfig,
    pub token: Option<String>,
    pub log_directive: String,
    /// Guilds configured for automatic connection.
    pub guilds: Vec<u64>,
    pub autojoin_private: Vec<u64>,
    pub watched_private: Vec<u64>,
    pub max_buffer_messages: i32,
    pub send_typing: bool,
    pub join_all: bool,
}

impl Default for InnerConfig {
    fn default() -> (r: InnerConfig)
        ensures
            r.token is None,
            r.log_directive@ == Seq::<char>::empty(),
            r.guilds@ =~= Seq::<u64>::empty(),
            r.autojoin_private@ =~= Seq::<u64>::empty(),
            r.watched_private@ =~= Seq::<u64>::empty(),
            r.max_buffer_messages == 4096,
            !r.send_typing,
            !r.join_all,
    {
        InnerConfig {
            look: Default::default(),
            color: Default::default(),
            token: None,
            log_directive: String::new(),
            guilds: Vec::new(),
            autojoin_private: Vec::new(),
            watched_private: Vec::new(),
            max_buffer_messages: 4096,
            send_typing: false,
            join_all: false,
        }
    }
}

} // verus!
