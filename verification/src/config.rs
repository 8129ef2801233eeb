//! The bot's settings, taken from the values of its environment variables.
use vstd::prelude::*;
use crate::decimal::{parse_i64, spec_parse_i64};

verus! {

/// The bot's settings.
pub struct Config {
    /// The bot's token, from @BotFather (`TELEGRAM_BOT_TOKEN`).
    pub telegram_token: String,
    /// The chat the bot talks to (`TELEGRAM_CHAT_ID`).
    pub chat_id: i64,
    /// Where reports are written (`OUTPUT_DIR`, by default "output").
    pub output_dir: String,
    /// The LaTeX command (`LATEX_CMD`, by default "pdflatex").
    pub latex_cmd: String,
}

/// Why the settings could not be formed.
#[derive(Debug, PartialEq, Eq, Structural)]
pub enum ConfigError {
    /// `TELEGRAM_BOT_TOKEN` is not set.
    MissingToken,
    /// `TELEGRAM_CHAT_ID` is not set.
    MissingChatId,
    /// `TELEGRAM_CHAT_ID` is not a decimal `i64`.
    InvalidChatId,
}

pub open spec fn text_or(o: Option<String>, default: Seq<char>) -> Seq<char> {
    match o {
        Some(s) => s@,
        None => default,
    }
}

impl Config {
    /// Forms the settings from the values of `TELEGRAM_BOT_TOKEN`,
    /// `TELEGRAM_CHAT_ID`, `OUTPUT_DIR` and `LATEX_CMD` (`None` where a variable
    /// is not set): the first two are needed, and the chat id must be a decimal
    /// `i64`; the others have defaults.
    pub fn from_env(
        telegram_token: Option<String>,
        chat_id: Option<String>,
        output_dir: Option<String>,
        latex_cmd: Option<String>,
    ) -> (r: Result<Config, ConfigError>)
        ensures
            telegram_token is None ==> r == Err::<Config, ConfigError>(ConfigError::MissingToken),
            telegram_token is Some && chat_id is None ==> r == Err::<Config, ConfigError>(
                ConfigError::MissingChatId,
            ),
            telegram_token is Some && chat_id is Some && spec_parse_i64(chat_id->0@) is None ==> r
                == Err::<Config, ConfigError>(ConfigError::InvalidChatId),
            telegram_token is Some && chat_id is Some && spec_parse_i64(chat_id->0@) is Some ==> (
            r matches Ok(cfg) && {
                &&& cfg.telegram_token@ == telegram_token->0@
                &&& cfg.chat_id == spec_parse_i64(chat_id->0@)->0
                &&& cfg.output_dir@ == text_or(output_dir, "output"@)
                &&& cfg.latex_cmd@ == text_or(latex_cmd, "pdflatex"@)
            }),
    {
        let token = match telegram_token {
            Some(t) => t,
            None => return Err(ConfigError::MissingToken),
        };
        let chat_text = match chat_id {
            Some(c) => c,
            None => return Err(ConfigError::MissingChatId),
        };
        let chat = match parse_i64(chat_text.as_str()) {
            Some(v) => v,
            None => return Err(ConfigError::InvalidChatId),
        };
        let output_dir = match output_dir {
            Some(d) => d,
            None => "output".to_owned(),
        };
        let latex_cmd = match latex_cmd {
            Some(c) => c,
            None => "pdflatex".to_owned(),
        };
        Ok(Config { telegram_token: token, chat_id: chat, output_dir, latex_cmd })
    }
}

} // verus!
