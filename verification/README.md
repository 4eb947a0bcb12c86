# mayhem-engine

The verified core of a local inference engine that drives several model
backends (llama.cpp, MLX, vLLM, TensorRT-LLM, stable-diffusion.cpp,
whisper.cpp, Piper, Transformers speech recognition and the Needle
tool-calling model).

`src/` is the library, verified with Verus: the validation of load
configurations and of generation, image, media and workflow requests; the
description of model artifacts and how their payload files, headers and
digests are checked; the tool-call grammar and JSON Schema; stop sequences
over a token stream; llama.cpp prompt batching, reasoning markers and its
prompt-prefix cache; the bounded parsers for WAV headers, decoded video
frames, worker protocol lines and sd-server HTTP responses; the routing
table and slot limiter of worker processes, the reply handling of streamed
MLX and TensorRT-LLM calls and the environment workers start with; and the
decisions of the
vLLM, stable-diffusion.cpp, whisper.cpp, Piper and Needle backends.
Calls into `serde_json`, `base64`, `sha2` and `jsonschema` stand behind
small trusted wrappers whose contracts say what the crates return.

`app/` holds what the library leaves to its caller: reading files,
directories and the environment, running the whisper.cpp and Piper tools,
the sd-server HTTP client, the channels that carry vLLM worker messages to
their requests, the CUDA toolkit search, serde forms of the library's types,
and the few computations on floating-point numbers.

`tests/` exercises the library on concrete values.
