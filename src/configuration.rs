//! Settings: credentials, defaults for delivery and formatting, transport knobs.
use crate::error::Error;
use vstd::prelude::*;

verus! {

/// Options for message formatting.
#[derive(Debug, Clone, Copy, PartialEq, Eq, Structural)]
pub struct FormattingOptions {
    /// Whether to escape MarkdownV2 reserved characters.
    pub escape_markdown: bool,
    /// Whether to obfuscate email addresses.
    pub obfuscate_emails: bool,
    /// Whether to escape HTML special characters.
    pub escape_html: bool,
    /// Maximum message length, in characters.
    pub truncate: Option<usize>,
}

impl Default for FormattingOptions {
    fn default() -> (r: Self)
        ensures
            r == (FormattingOptions {
                escape_markdown: true,
                obfuscate_emails: false,
                escape_html: false,
                truncate: Some(4096),
            }),
    {
        FormattingOptions {
            escape_markdown: true,
            obfuscate_emails: false,
            escape_html: false,
            truncate: Some(4096),
        }
    }
}

/// Transport options for requests.
#[derive(Debug, Clone, Copy, PartialEq, Eq, Structural)]
pub struct ClientOptions {
    /// Request timeout in seconds.
    pub timeout: u64,
    /// Number of retries for failed requests.
    pub retry_count: u32,
    /// Delay between retries in seconds.
    pub retry_delay: u64,
}

impl Default for ClientOptions {
    fn default() -> (r: Self)
        ensures
            r == (ClientOptions { timeout: 30, retry_count: 3, retry_delay: 1 }),
    {
        ClientOptions { timeout: 30, retry_count: 3, retry_delay: 1 }
    }
}

/// The settings as plain values.
pub struct ConfigurationView {
    pub bot_token: Option<Seq<char>>,
    pub chat_id: Option<Seq<char>>,
    pub default_parse_mode: Option<Seq<char>>,
    pub disable_web_page_preview: bool,
    pub message_prefix: Option<Seq<char>>,
    pub message_suffix: Option<Seq<char>>,
    pub formatting_options: FormattingOptions,
    pub client_options: ClientOptions,
}

pub open spec fn text_of(s: Option<String>) -> Option<Seq<char>> {
    match s {
        Some(t) => Some(t@),
        None => None,
    }
}

/// An empty value unsets an optional text setting.
pub open spec fn unless_empty(s: Seq<char>) -> Option<Seq<char>> {
    if s.len() == 0 {
        None
    } else {
        Some(s)
    }
}

/// A default dialect that the endpoint accepts.
pub open spec fn is_known_mode(m: Seq<char>) -> bool {
    m == "MarkdownV2"@ || m == "HTML"@
}

/// The settings that delivery reads.
#[derive(Debug, Clone)]
pub struct Configuration {
    bot_token: Option<String>,
    chat_id: Option<String>,
    default_parse_mode: Option<String>,
    disable_web_page_preview: bool,
    message_prefix: Option<String>,
    message_suffix: Option<String>,
    formatting_options: FormattingOptions,
    client_options: ClientOptions,
}

impl View for Configuration {
    type V = ConfigurationView;

    closed spec fn view(&self) -> ConfigurationView {
        ConfigurationView {
            bot_token: text_of(self.bot_token),
            chat_id: text_of(self.chat_id),
            default_parse_mode: text_of(self.default_parse_mode),
            disable_web_page_preview: self.disable_web_page_preview,
            message_prefix: text_of(self.message_prefix),
            message_suffix: text_of(self.message_suffix),
            formatting_options: self.formatting_options,
            client_options: self.client_options,
        }
    }
}

/// Compares two texts character by character.
pub fn same_text(a: &str, b: &str) -> (r: bool)
    ensures
        r == (a@ == b@),
{
    String::from_str(a) == String::from_str(b)
}

fn copy_text(s: &Option<String>) -> (r: Option<String>)
    ensures
        text_of(r) == text_of(*s),
{
    match s {
        Some(t) => Some(t.clone()),
        None => None,
    }
}

fn text_unless_empty(s: &str) -> (r: Option<String>)
    ensures
        text_of(r) == unless_empty(s@),
{
    if s.unicode_len() == 0 {
        None
    } else {
        Some(String::from_str(s))
    }
}

impl Default for Configuration {
    fn default() -> (r: Self)
        ensures
            r@ == (ConfigurationView {
                bot_token: None,
                chat_id: None,
                default_parse_mode: Some("MarkdownV2"@),
                disable_web_page_preview: true,
                message_prefix: None,
                message_suffix: None,
                formatting_options: FormattingOptions {
                    escape_markdown: true,
                    obfuscate_emails: false,
                    escape_html: false,
                    truncate: Some(4096),
                },
                client_options: ClientOptions { timeout: 30, retry_count: 3, retry_delay: 1 },
            }),
    {
        Configuration {
            bot_token: None,
            chat_id: None,
            default_parse_mode: Some(String::from_str("MarkdownV2")),
            disable_web_page_preview: true,
            message_prefix: None,
            message_suffix: None,
            formatting_options: FormattingOptions::default(),
            client_options: ClientOptions::default(),
        }
    }
}

impl Configuration {
    /// A copy of these settings, for a caller that works on a snapshot.
    pub fn get_cloned_instance(&self) -> (r: Configuration)
        ensures
            r@ == self@,
    {
        Configuration {
            bot_token: copy_text(&self.bot_token),
            chat_id: copy_text(&self.chat_id),
            default_parse_mode: copy_text(&self.default_parse_mode),
            disable_web_page_preview: self.disable_web_page_preview,
            message_prefix: copy_text(&self.message_prefix),
            message_suffix: copy_text(&self.message_suffix),
            formatting_options: self.formatting_options,
            client_options: self.client_options,
        }
    }

    pub fn set_bot_token(&mut self, token: &str)
        ensures
            final(self)@ == (ConfigurationView { bot_token: Some(token@), ..old(self)@ }),
    {
        self.bot_token = Some(String::from_str(token));
    }

    /// The bot token, or a configuration error when none is set.
    pub fn bot_token(&self) -> (r: Result<&str, Error>)
        ensures
            match self@.bot_token {
                Some(t) => r matches Ok(s) && s@ == t,
                None => r matches Err(Error::Configuration(_)),
            },
    {
        match &self.bot_token {
            Some(t) => Ok(t.as_str()),
            None => Err(Error::configuration("Bot token not configured")),
        }
    }

    pub fn set_chat_id(&mut self, chat_id: &str)
        ensures
            final(self)@ == (ConfigurationView { chat_id: Some(chat_id@), ..old(self)@ }),
    {
        self.chat_id = Some(String::from_str(chat_id));
    }

    /// The default chat id, or a configuration error when none is set.
    pub fn chat_id(&self) -> (r: Result<&str, Error>)
        ensures
            match self@.chat_id {
                Some(t) => r matches Ok(s) && s@ == t,
                None => r matches Err(Error::Configuration(_)),
            },
    {
        match &self.chat_id {
            Some(t) => Ok(t.as_str()),
            None => Err(Error::configuration("Chat ID not configured")),
        }
    }

    /// Sets the default parse mode; an empty mode unsets it.
    pub fn set_default_parse_mode(&mut self, mode: &str)
        ensures
            final(self)@ == (ConfigurationView {
                default_parse_mode: unless_empty(mode@),
                ..old(self)@
            }),
    {
        self.default_parse_mode = text_unless_empty(mode);
    }

    pub fn default_parse_mode(&self) -> (r: Option<&str>)
        ensures
            match self@.default_parse_mode {
                Some(t) => r matches Some(s) && s@ == t,
                None => r is None,
            },
    {
        match &self.default_parse_mode {
            Some(t) => Some(t.as_str()),
            None => None,
        }
    }

    pub fn set_disable_web_page_preview(&mut self, disable: bool)
        ensures
            final(self)@ == (ConfigurationView { disable_web_page_preview: disable, ..old(self)@ }),
    {
        self.disable_web_page_preview = disable;
    }

    pub fn disable_web_page_preview(&self) -> (r: bool)
        ensures
            r == self@.disable_web_page_preview,
    {
        self.disable_web_page_preview
    }

    /// Sets the text put before every message; an empty prefix unsets it.
    pub fn set_message_prefix(&mut self, prefix: &str)
        ensures
            final(self)@ == (ConfigurationView { message_prefix: unless_empty(prefix@), ..old(self)@ }),
    {
        self.message_prefix = text_unless_empty(prefix);
    }

    pub fn message_prefix(&self) -> (r: Option<&str>)
        ensures
            match self@.message_prefix {
                Some(t) => r matches Some(s) && s@ == t,
                None => r is None,
            },
    {
        match &self.message_prefix {
            Some(t) => Some(t.as_str()),
            None => None,
        }
    }

    /// Sets the text put after every message; an empty suffix unsets it.
    pub fn set_message_suffix(&mut self, suffix: &str)
        ensures
            final(self)@ == (ConfigurationView { message_suffix: unless_empty(suffix@), ..old(self)@ }),
    {
        self.message_suffix = text_unless_empty(suffix);
    }

    pub fn message_suffix(&self) -> (r: Option<&str>)
        ensures
            match self@.message_suffix {
                Some(t) => r matches Some(s) && s@ == t,
                None => r is None,
            },
    {
        match &self.message_suffix {
            Some(t) => Some(t.as_str()),
            None => None,
        }
    }

    pub fn set_formatting_options(&mut self, options: FormattingOptions)
        ensures
            final(self)@ == (ConfigurationView { formatting_options: options, ..old(self)@ }),
    {
        self.formatting_options = options;
    }

    pub fn formatting_options(&self) -> (r: &FormattingOptions)
        ensures
            *r == self@.formatting_options,
    {
        &self.formatting_options
    }

    pub fn set_client_options(&mut self, options: ClientOptions)
        ensures
            final(self)@ == (ConfigurationView { client_options: options, ..old(self)@ }),
    {
        self.client_options = options;
    }

    pub fn client_options(&self) -> (r: &ClientOptions)
        ensures
            *r == self@.client_options,
    {
        &self.client_options
    }

    /// Checks that a bot token is set and that the default parse mode, when set, is one
    /// that the endpoint accepts.
    pub fn validate(&self) -> (r: Result<(), Error>)
        ensures
            r is Ok <==> (self@.bot_token is Some && match self@.default_parse_mode {
                Some(m) => is_known_mode(m),
                None => true,
            }),
            r matches Err(e) ==> e is Configuration,
    {
        if self.bot_token.is_none() {
            return Err(Error::configuration("Bot token not configured"));
        }
        match &self.default_parse_mode {
            Some(mode) => {
                if same_text(mode.as_str(), "MarkdownV2") || same_text(mode.as_str(), "HTML") {
                    Ok(())
                } else {
                    let message = String::from_str("Invalid parse mode: '").concat(mode.as_str()).concat(
                        "'. Must be 'MarkdownV2' or 'HTML'",
                    );
                    Err(Error::Configuration(message))
                }
            },
            None => Ok(()),
        }
    }
}

} // verus!
