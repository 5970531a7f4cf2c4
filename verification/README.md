# squid

The decision logic of the `squid` AI coding assistant, written in Verus and
proved against its contracts.

- `src/` is the verified library. Each module holds one area of the tool:
  configuration (`config`, `setup`, `agent`), prompt and message handling
  (`llm`, `chat`), path policy and plugins (`path_policy`, `plugins`, `schema`),
  document chunking and indexing decisions (`rag`), background jobs (`jobs`),
  the HTTP API's rules (`api`, `logger`, `audio`), diagnostics (`doctor`),
  environment reports (`envinfo`) and bundled assets (`bundled`). The calls
  into outside crates (tokenizer, hashing, regular expressions, cron parsing,
  base64, JSON and JSON Schema) sit behind small trusted wrappers whose
  contracts name what they return.
- `tests/` runs the library on concrete inputs.
- `app/` is the command-line program: argument parsing, terminal prompts,
  files, the network and the system probes, handing plain values to the
  library and acting on what it decides.
