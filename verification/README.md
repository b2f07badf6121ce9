# s3-cli

A command-line client for S3-compatible storage: buckets, files, multipart
uploads and provider profiles kept in `~/.config/s3-cli/config.toml`.

The decisions the client makes are a library verified with Verus (`src/`):

- `upload_plan`: whether a file goes up in one request or in 8 MiB parts, and
  which bytes each part carries; the parts provably tile the file.
- `scheduler`: hands the parts to concurrent uploads in order, within the
  current concurrency target, and stops on the first failure; a clean run
  records every part exactly once.
- `controller`: the hill-climbing tuner of the concurrency target, which
  stays within its bounds.
- `parts`: orders the finished parts for completing the upload.
- `progress`: the progress percentage and spinner.
- `regions`, `config`, `table`: the bucket-region cache, the provider
  profiles and the string-keyed table both are kept in.
- `multipart`, `number`: listing incomplete uploads and picking the one to
  abort by its timestamp id.
- `naming`, `text`, `cli`, `content`: object keys, download paths, the
  command types and the single-request upload.

`app/` is the program around it: argument parsing with clap, the files read
and written with serde and toml, the S3 requests, the tokio tasks, and the
floating-point throughput arithmetic that feeds the controller.
