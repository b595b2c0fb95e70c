use vstd::prelude::*;

verus! {

/// The chat role of a persona: `user` for `User`, `assistant` otherwise.
pub open spec fn role_of(persona: Seq<char>) -> Seq<char> {
    if persona == "User"@ {
        "user"@
    } else {
        "assistant"@
    }
}

fn concat(a: &str, b: &str) -> (r: String)
    ensures
        r@ == a@ + b@,
{
    let mut s = a.to_string();
    s.append(b);
    s
}

/// Settings of a client for a remote text-generation service.
pub struct OpenAIClient {
    api_key: String,
    model: String,
}

impl OpenAIClient {
    pub closed spec fn key(&self) -> Seq<char> {
        self.api_key@
    }

    pub closed spec fn model_name(&self) -> Seq<char> {
        self.model@
    }

    /// A client from its settings: the key is needed; the model defaults
    /// to `gpt-4`.
    pub fn from_settings(api_key: Option<String>, model: Option<String>) -> (r: Result<OpenAIClient, String>)
        ensures
            match api_key {
                None => r matches Err(e) && e@ == "OPENAI_API_KEY not found in .env"@,
                Some(k) => r matches Ok(c) && c.key() == k@ && c.model_name() == match model {
                    Some(m) => m@,
                    None => "gpt-4"@,
                },
            },
    {
        match api_key {
            None => Err("OPENAI_API_KEY not found in .env".to_string()),
            Some(k) => {
                let m = match model {
                    Some(m) => m,
                    None => "gpt-4".to_string(),
                };
                Ok(OpenAIClient { api_key: k, model: m })
            },
        }
    }

    /// The model to ask.
    pub fn model(&self) -> (r: &String)
        ensures
            r@ == self.model_name(),
    {
        &self.model
    }

    /// The value of the authorization header.
    pub fn authorization(&self) -> (r: String)
        ensures
            r@ == "Bearer "@ + self.key(),
    {
        concat("Bearer ", self.api_key.as_str())
    }

    /// The role of a persona in a request.
    pub fn role(persona: &String) -> (r: String)
        ensures
            r@ == role_of(persona@),
    {
        let user = "User".to_string();
        if persona.eq(&user) {
            "user".to_string()
        } else {
            "assistant".to_string()
        }
    }

    /// The messages of a request: each (persona, text) as (role, text).
    pub fn chat_messages(messages: &Vec<(String, String)>) -> (r: Vec<(String, String)>)
        ensures
            r@.len() == messages@.len(),
            forall|i: int|
                0 <= i < r@.len() ==> (#[trigger] r@[i]).0@ == role_of(messages@[i].0@) && r@[i].1@
                    == messages@[i].1@,
    {
        let mut r: Vec<(String, String)> = Vec::new();
        let mut i: usize = 0;
        while i < messages.len()
            invariant
                i <= messages@.len(),
                r@.len() == i,
                forall|j: int|
                    0 <= j < i ==> (#[trigger] r@[j]).0@ == role_of(messages@[j].0@) && r@[j].1@
                        == messages@[j].1@,
            decreases messages@.len() - i,
        {
            let role = OpenAIClient::role(&messages[i].0);
            let text = messages[i].1.clone();
            r.push((role, text));
            i += 1;
        }
        r
    }

    /// The outcome of a reply: the service's error, else the first choice's
    /// message, else its text, else an error that gives the status.
    pub fn reply_from(
        error: Option<String>,
        first_message: Option<String>,
        first_text: Option<String>,
        status: &str,
    ) -> (r: Result<String, String>)
        ensures
            match error {
                Some(e) => r matches Err(m) && m@ == "OpenAI API error: "@ + e@,
                None => match first_message {
                    Some(t) => r matches Ok(x) && x@ == t@,
                    None => match first_text {
                        Some(t) => r matches Ok(x) && x@ == t@,
                        None => r matches Err(m) && m@ == "No response content from OpenAI. Status: "@
                            + status@,
                    },
                },
            },
    {
        match error {
            Some(e) => Err(concat("OpenAI API error: ", e.as_str())),
            None => match first_message {
                Some(t) => Ok(t),
                None => match first_text {
                    Some(t) => Ok(t),
                    None => Err(concat("No response content from OpenAI. Status: ", status)),
                },
            },
        }
    }
}

} // verus!
