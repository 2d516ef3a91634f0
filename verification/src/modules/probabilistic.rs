//! The generative backend: a stand-in for a language model, which answers
//! with a draft made from the prompt and streams the prompt's words as tokens.

use vstd::prelude::*;
use vstd::string::StringExecFns;

use crate::text::{
    byte_length, decimal, decimal_string, parse_usize, parsed_usize, split_words, texts,
    utf8_len, words,
};

verus! {

/// The most tokens that a module generates unless it is told otherwise.
pub const DEFAULT_MAX_TOKENS: usize = 2048;

/// The longest prompt, in bytes, that a module takes unless it is told
/// otherwise.
pub const DEFAULT_MAX_PROMPT_LENGTH: usize = 10000;

/// The sampling temperature of a module that is told no other.
pub const DEFAULT_TEMPERATURE: &'static str = "0.7";

/// What separates one streamed token from the next.
pub const TOKEN_SEPARATOR: &'static str = " ";

/// The token that ends every stream.
pub const END_OF_STREAM: &'static str = "\n";

/// Why the generative backend gave no text.
#[derive(Debug, Clone, Copy, PartialEq, Eq, Structural)]
pub enum GenError {
    /// The prompt was empty.
    EmptyPrompt,
    /// The prompt was longer than the module's limit, which is given.
    PromptTooLong { limit: usize },
}

impl GenError {
    /// The message that tells a reader of the failure.
    pub open spec fn spec_message(self) -> Seq<char> {
        match self {
            GenError::EmptyPrompt => "Prompt cannot be empty"@,
            GenError::PromptTooLong { limit } => "Prompt exceeds maximum length of "@ + decimal(
                limit as nat,
            ) + " characters"@,
        }
    }

    /// The message that tells a reader of the failure.
    pub fn message(&self) -> (text: String)
        ensures
            text@ == self.spec_message(),
    {
        match self {
            GenError::EmptyPrompt => "Prompt cannot be empty".to_owned(),
            GenError::PromptTooLong { limit } => {
                let mut text = "Prompt exceeds maximum length of ".to_owned();
                let number = decimal_string(*limit);
                text.append(number.as_str());
                text.append(" characters");
                text
            },
        }
    }
}

/// The settings of the generative backend.
#[derive(Debug, Clone)]
pub struct ModelConfig {
    /// Where the model's weights lie, if a model is configured.
    pub model_path: Option<String>,
    /// The most tokens to generate.
    pub max_tokens: usize,
    /// The sampling temperature, in the decimal notation in which it is
    /// reported.
    pub temperature: String,
    /// The longest prompt that is taken, in bytes.
    pub max_prompt_length: usize,
}

/// The settings of a module, for its callers to read.
#[derive(Debug, Clone)]
pub struct ProbConfig {
    pub model_path: Option<String>,
    pub max_tokens: usize,
    pub temperature: String,
}

/// The generative backend.
pub struct ProbabilisticModule {
    pub config: ModelConfig,
}

/// The draft that the stand-in model writes for a prompt: the prompt, and a
/// line that names the settings.
pub open spec fn draft_text(prompt: Seq<char>, temperature: Seq<char>, max_tokens: usize) -> Seq<
    char,
> {
    prompt + "\n\n[LLM draft - temp: "@ + temperature + ", max_tokens: "@ + decimal(
        max_tokens as nat,
    ) + "]"@
}

/// The outcome of inference on a prompt, for a module with the given settings.
pub open spec fn draft_outcome(
    prompt: Seq<char>,
    temperature: Seq<char>,
    max_tokens: usize,
    limit: usize,
) -> Result<Seq<char>, GenError> {
    if prompt.len() == 0 {
        Err(GenError::EmptyPrompt)
    } else if utf8_len(prompt) > limit {
        Err(GenError::PromptTooLong { limit })
    } else {
        Ok(draft_text(prompt, temperature, max_tokens))
    }
}

/// The tokens streamed for the given words: each word with a separator
/// behind it, in order, and the end-of-stream token last.
pub open spec fn token_texts(words: Seq<Seq<char>>) -> Seq<Seq<char>> {
    words.map_values(|word: Seq<char>| word + TOKEN_SEPARATOR@).push(END_OF_STREAM@)
}

/// The tokens streamed for a prompt.
pub open spec fn stream_texts(prompt: Seq<char>) -> Seq<Seq<char>> {
    token_texts(words(prompt))
}

/// A stream has one token for each word, each the word with a separator
/// behind it, and ends with the end-of-stream token.
pub proof fn lemma_stream_ends_with_sentinel(words: Seq<Seq<char>>)
    ensures
        token_texts(words).len() == words.len() + 1,
        forall|i: int|
            0 <= i < words.len() ==> token_texts(words)[i] == words[i] + TOKEN_SEPARATOR@,
        token_texts(words).last() == END_OF_STREAM@,
{
}

/// What an inference came to, as contracts see it.
pub open spec fn draft_view(outcome: Result<String, GenError>) -> Result<Seq<char>, GenError> {
    match outcome {
        Ok(text) => Ok(text@),
        Err(error) => Err(error),
    }
}

impl ProbabilisticModule {
    /// The outcome of inference on a prompt.
    pub open spec fn spec_infer(&self, prompt: Seq<char>) -> Result<Seq<char>, GenError> {
        draft_outcome(
            prompt,
            self.config.temperature@,
            self.config.max_tokens,
            self.config.max_prompt_length,
        )
    }

    /// A module with the given settings. The two limits come as the text in
    /// which they were configured; the temperature comes in the notation in
    /// which it is to be reported. A setting that is absent, or a limit that
    /// cannot be read, takes its default.
    pub fn load_local_llm(
        model_path: Option<String>,
        max_tokens: Option<&str>,
        temperature: Option<String>,
        max_prompt_length: Option<&str>,
    ) -> (module: Self)
        ensures
            module.config.model_path == model_path,
            module.config.max_tokens == match max_tokens {
                Some(text) => match parsed_usize(text@) {
                    Some(count) => count,
                    None => DEFAULT_MAX_TOKENS,
                },
                None => DEFAULT_MAX_TOKENS,
            },
            module.config.temperature@ == match temperature {
                Some(text) => text@,
                None => DEFAULT_TEMPERATURE@,
            },
            module.config.max_prompt_length == match max_prompt_length {
                Some(text) => match parsed_usize(text@) {
                    Some(limit) => limit,
                    None => DEFAULT_MAX_PROMPT_LENGTH,
                },
                None => DEFAULT_MAX_PROMPT_LENGTH,
            },
    {
        let max_tokens = match max_tokens {
            Some(text) => match parse_usize(text) {
                Some(count) => count,
                None => DEFAULT_MAX_TOKENS,
            },
            None => DEFAULT_MAX_TOKENS,
        };
        let temperature = match temperature {
            Some(text) => text,
            None => DEFAULT_TEMPERATURE.to_owned(),
        };
        let max_prompt_length = match max_prompt_length {
            Some(text) => match parse_usize(text) {
                Some(limit) => limit,
                None => DEFAULT_MAX_PROMPT_LENGTH,
            },
            None => DEFAULT_MAX_PROMPT_LENGTH,
        };
        ProbabilisticModule {
            config: ModelConfig { model_path, max_tokens, temperature, max_prompt_length },
        }
    }

    /// The full text that the model generates for a prompt. An empty prompt
    /// and one over the limit are refused.
    pub fn infer(&self, prompt: &str) -> (outcome: Result<String, GenError>)
        ensures
            draft_view(outcome) == self.spec_infer(prompt@),
    {
        if prompt.is_empty() {
            return Err(GenError::EmptyPrompt);
        }
        if byte_length(prompt) > self.config.max_prompt_length {
            return Err(GenError::PromptTooLong { limit: self.config.max_prompt_length });
        }
        let mut response = prompt.to_owned();
        response.append("\n\n[LLM draft - temp: ");
        response.append(self.config.temperature.as_str());
        response.append(", max_tokens: ");
        let number = decimal_string(self.config.max_tokens);
        response.append(number.as_str());
        response.append("]");
        Ok(response)
    }

    /// The stream of tokens that the model generates for a prompt: one
    /// token for each word of the prompt, then the end-of-stream token. No
    /// token is made before it is asked for.
    pub fn stream_tokens(&self, prompt: &str) -> (stream: TokenStream)
        ensures
            stream.remaining() == stream_texts(prompt@),
            stream.produced() == 0,
    {
        TokenStream::over(split_words(prompt))
    }

    /// The module's settings.
    pub fn get_config(&self) -> (config: ProbConfig)
        ensures
            config.model_path == self.config.model_path,
            config.max_tokens == self.config.max_tokens,
            config.temperature == self.config.temperature,
    {
        let model_path = match &self.config.model_path {
            Some(path) => Some(path.clone()),
            None => None,
        };
        ProbConfig {
            model_path,
            max_tokens: self.config.max_tokens,
            temperature: self.config.temperature.clone(),
        }
    }
}

/// A stream of generated tokens: finite, read once from front to back, and
/// lazy, in that each token is made when it is asked for.
pub struct TokenStream {
    words: Vec<String>,
    position: usize,
    ended: bool,
}

impl TokenStream {
    /// The position is within the words, and at their end once the stream
    /// has ended.
    #[verifier::type_invariant]
    spec fn in_step(&self) -> bool {
        &&& self.position <= self.words@.len()
        &&& self.ended ==> self.position == self.words@.len()
    }

    /// The tokens that are still to come, in their order.
    pub closed spec fn remaining(&self) -> Seq<Seq<char>> {
        if self.ended {
            Seq::empty()
        } else {
            token_texts(texts(self.words@).skip(self.position as int))
        }
    }

    /// How many tokens the stream has made so far.
    pub closed spec fn produced(&self) -> nat {
        if self.ended {
            (self.position + 1) as nat
        } else {
            self.position as nat
        }
    }

    /// The stream of the tokens for the given words.
    pub fn over(words: Vec<String>) -> (stream: Self)
        ensures
            stream.remaining() == token_texts(texts(words@)),
            stream.produced() == 0,
    {
        TokenStream { words, position: 0, ended: false }
    }

    /// The next token, if there is one. A token is made by this call and by
    /// no other: the stream does no work ahead of its reader.
    pub fn next_token(&mut self) -> (token: Option<String>)
        ensures
            match token {
                Some(text) => {
                    &&& old(self).remaining().len() > 0
                    &&& text@ == old(self).remaining()[0]
                    &&& final(self).remaining() == old(self).remaining().drop_first()
                    &&& final(self).produced() == old(self).produced() + 1
                },
                None => {
                    &&& old(self).remaining().len() == 0
                    &&& final(self).remaining() == old(self).remaining()
                    &&& final(self).produced() == old(self).produced()
                },
            },
    {
        proof {
            use_type_invariant(&*self);
        }
        if self.ended {
            return None;
        }
        if self.position < self.words.len() {
            let mut token = self.words[self.position].clone();
            token.append(TOKEN_SEPARATOR);
            self.position = self.position + 1;
            Some(token)
        } else {
            self.ended = true;
            Some(END_OF_STREAM.to_owned())
        }
    }

    /// Whether the stream has come to its end.
    pub fn is_exhausted(&self) -> (exhausted: bool)
        ensures
            exhausted == (self.remaining().len() == 0),
    {
        self.ended
    }

    /// All the tokens that are still to come.
    pub fn collect(self) -> (tokens: Vec<String>)
        ensures
            texts(tokens@) == self.remaining(),
    {
        let mut stream = self;
        let mut tokens: Vec<String> = Vec::new();
        loop
            invariant
                texts(tokens@) + stream.remaining() == self.remaining(),
            decreases stream.remaining().len(),
        {
            match stream.next_token() {
                Some(token) => {
                    tokens.push(token);
                },
                None => {
                    return tokens;
                },
            }
        }
    }
}

} // verus!
